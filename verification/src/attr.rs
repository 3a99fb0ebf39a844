//! The decorator-annotation parser: turns the annotation's token
//! sequence (`name` or `name(args)`) into a structured
//! `DecoratorAttr`, or fails.

use vstd::prelude::*;

use crate::token::{
    dup_token, lemma_view_tokens_index, lemma_view_tokens_len, lemma_view_tokens_push,
    render_token, spec_render, view_token, view_tokens, Delim, SpecToken, Token,
};
use crate::DecoError;

verus! {

/// Whether a piece of source text is one well-formed expression.
/// This is decided by the host-language expression grammar; stating
/// that grammar here would restate the collaborator's whole parser,
/// so only the name is fixed.
pub uninterp spec fn parses_as_expr(s: Seq<char>) -> bool;

/// Relies on `syn::parse_str::<syn::Expr>`: whether a text parses as
/// one Rust expression depends on the characters alone.
#[verifier::external_body]
fn is_expression(s: &str) -> (r: bool)
    ensures
        r == parses_as_expr(s@),
{
    syn::parse_str::<syn::Expr>(s).is_ok()
}

/// A structured decorator annotation: a decorator referenced by
/// name, or a decorator built by calling `name` with arguments.
#[derive(Debug, PartialEq, Eq)]
pub enum DecoratorAttr {
    Fixed { name: String },
    Parametric { name: String, args: Vec<Token> },
}

/// The model of a decorator annotation.
#[verifier::ext_equal]
pub enum SpecAttr {
    Fixed { name: Seq<char> },
    Parametric { name: Seq<char>, args: Seq<SpecToken> },
}

impl View for DecoratorAttr {
    type V = SpecAttr;

    open spec fn view(&self) -> SpecAttr {
        match self {
            DecoratorAttr::Fixed { name } => SpecAttr::Fixed { name: name@ },
            DecoratorAttr::Parametric { name, args } => SpecAttr::Parametric {
                name: name@,
                args: view_tokens(args@),
            },
        }
    }
}

/// Which elements of an argument group are kept: those whose source
/// text is a well-formed expression, in encountered order; the rest
/// are dropped silently.
pub open spec fn collect_exprs(elems: Seq<SpecToken>) -> Seq<SpecToken>
    decreases elems.len(),
{
    if elems.len() == 0 {
        Seq::empty()
    } else {
        let rest = collect_exprs(elems.drop_last());
        if parses_as_expr(spec_render(elems.last())) {
            rest.push(elems.last())
        } else {
            rest
        }
    }
}

/// One scan over the annotation tokens, carrying the candidate name
/// and the arguments collected so far. The first identifier becomes
/// the name; a group is only legal after a name; any other token
/// shape is malformed.
pub open spec fn attr_scan(
    ts: Seq<SpecToken>,
    name: Option<Seq<char>>,
    args: Seq<SpecToken>,
) -> Result<SpecAttr, DecoError>
    decreases ts.len(),
{
    if ts.len() == 0 {
        match name {
            Option::None => Err(DecoError::NameNotFound),
            Option::Some(n) => Ok(
                if args.len() == 0 {
                    SpecAttr::Fixed { name: n }
                } else {
                    SpecAttr::Parametric { name: n, args }
                },
            ),
        }
    } else {
        match ts[0] {
            SpecToken::Ident(s) => attr_scan(
                ts.subrange(1, ts.len() as int),
                match name {
                    Option::None => Option::Some(s),
                    Option::Some(n) => Option::Some(n),
                },
                args,
            ),
            SpecToken::Group(d, elems) => match name {
                Option::None => Err(DecoError::InvalidTokenSequence),
                Option::Some(_) => attr_scan(
                    ts.subrange(1, ts.len() as int),
                    name,
                    args + collect_exprs(elems),
                ),
            },
            SpecToken::Fragment(_) => Err(DecoError::InvalidTokenSequence),
        }
    }
}

/// What parsing an annotation yields: `Fixed` when no argument was
/// collected (no group, or only empty or ill-formed groups),
/// `Parametric` otherwise.
pub open spec fn spec_parse_attr(ts: Seq<SpecToken>) -> Result<SpecAttr, DecoError> {
    attr_scan(ts, Option::None, Seq::empty())
}

/// The model of an optional name.
pub open spec fn view_name(name: Option<String>) -> Option<Seq<char>> {
    match name {
        Option::None => Option::None,
        Option::Some(s) => Option::Some(s@),
    }
}

impl DecoratorAttr {
    /// Parses a decorator annotation's token sequence, exactly as
    /// `spec_parse_attr` states.
    pub fn parse(tokens: &Vec<Token>) -> (r: Result<DecoratorAttr, DecoError>)
        ensures
            match r {
                Ok(a) => spec_parse_attr(view_tokens(tokens@)) == Ok::<SpecAttr, DecoError>(a@),
                Err(e) => spec_parse_attr(view_tokens(tokens@)) == Err::<SpecAttr, DecoError>(e),
            },
    {
        let ghost all = view_tokens(tokens@);
        proof {
            lemma_view_tokens_len(tokens@);
            assert(all.subrange(0, all.len() as int) =~= all);
            assert(view_tokens(Seq::<Token>::empty()) =~= Seq::<SpecToken>::empty());
        }
        let mut name: Option<String> = Option::None;
        let mut args: Vec<Token> = Vec::new();
        let mut i: usize = 0;
        while i < tokens.len()
            invariant
                i <= tokens.len(),
                all == view_tokens(tokens@),
                all.len() == tokens@.len(),
                spec_parse_attr(all) == attr_scan(
                    all.subrange(i as int, all.len() as int),
                    view_name(name),
                    view_tokens(args@),
                ),
            decreases tokens.len() - i,
        {
            let ghost rest = all.subrange(i as int, all.len() as int);
            proof {
                lemma_view_tokens_index(tokens@, i as int);
                assert(rest[0] == all[i as int]);
                assert(rest.subrange(1, rest.len() as int) =~= all.subrange(
                    i + 1,
                    all.len() as int,
                ));
            }
            match &tokens[i] {
                Token::Ident(s) => {
                    if name.is_none() {
                        name = Option::Some(s.clone());
                    }
                },
                Token::Group(_d, elems) => {
                    if name.is_none() {
                        return Err(DecoError::InvalidTokenSequence);
                    }
                    let ghost base = view_tokens(args@);
                    let ghost ev = view_tokens(elems@);
                    proof {
                        lemma_view_tokens_len(elems@);
                    }
                    let mut j: usize = 0;
                    while j < elems.len()
                        invariant
                            j <= elems.len(),
                            ev == view_tokens(elems@),
                            ev.len() == elems@.len(),
                            view_tokens(args@) == base + collect_exprs(ev.subrange(0, j as int)),
                        decreases elems.len() - j,
                    {
                        proof {
                            lemma_view_tokens_index(elems@, j as int);
                        }
                        let text = render_token(&elems[j]);
                        let ghost prefix = ev.subrange(0, j as int);
                        proof {
                            assert(ev.subrange(0, j + 1).drop_last() =~= prefix);
                            assert(ev.subrange(0, j + 1).last() == ev[j as int]);
                        }
                        if is_expression(text.as_str()) {
                            let x = dup_token(&elems[j]);
                            let ghost pre = args@;
                            args.push(x);
                            proof {
                                lemma_view_tokens_push(pre, x);
                            }
                        }
                        j += 1;
                    }
                    proof {
                        assert(ev.subrange(0, ev.len() as int) =~= ev);
                        assert(view_tokens(args@) == base + collect_exprs(ev));
                    }
                },
                Token::Fragment(_) => {
                    return Err(DecoError::InvalidTokenSequence);
                },
            }
            i += 1;
        }
        proof {
            assert(all.subrange(all.len() as int, all.len() as int) =~= Seq::<SpecToken>::empty());
            lemma_view_tokens_len(args@);
        }
        match name {
            Option::Some(n) => {
                if args.len() == 0 {
                    Ok(DecoratorAttr::Fixed { name: n })
                } else {
                    Ok(DecoratorAttr::Parametric { name: n, args })
                }
            },
            Option::None => Err(DecoError::NameNotFound),
        }
    }
}

/// A group whose elements are all well-formed expressions is kept
/// whole, in order.
pub proof fn lemma_collect_exprs_all(elems: Seq<SpecToken>)
    ensures
        (forall|i: int|
            0 <= i < elems.len() ==> #[trigger] parses_as_expr(spec_render(elems[i])))
            ==> collect_exprs(elems) == elems,
    decreases elems.len(),
{
    if elems.len() > 0 {
        lemma_collect_exprs_all(elems.drop_last());
        if forall|i: int|
            0 <= i < elems.len() ==> #[trigger] parses_as_expr(spec_render(elems[i])) {
            assert(forall|i: int|
                0 <= i < elems.drop_last().len() ==> #[trigger] parses_as_expr(
                    spec_render(elems.drop_last()[i]),
                ));
            assert(parses_as_expr(spec_render(elems.last())));
            assert(collect_exprs(elems) =~= elems);
        }
    }
}

/// Every input of shape `name` — one identifier token and nothing
/// else — parses to `Fixed` with exactly that name.
pub proof fn lemma_bare_name_is_fixed(name: Seq<char>)
    ensures
        spec_parse_attr(seq![SpecToken::Ident(name)]) == Ok::<SpecAttr, DecoError>(
            SpecAttr::Fixed { name },
        ),
{
    reveal_with_fuel(attr_scan, 3);
    assert(seq![SpecToken::Ident(name)].subrange(1, 1) =~= Seq::<SpecToken>::empty());
}

/// Every input of shape `name(e1, ..., en)` whose group elements are
/// all well-formed expressions, with n at least one, parses to
/// `Parametric` with that name and exactly those arguments, in
/// source order.
pub proof fn lemma_args_are_parametric(name: Seq<char>, d: Delim, elems: Seq<SpecToken>)
    ensures
        (elems.len() >= 1 && (forall|i: int|
            0 <= i < elems.len() ==> #[trigger] parses_as_expr(spec_render(elems[i]))))
            ==> spec_parse_attr(seq![SpecToken::Ident(name), SpecToken::Group(d, elems)])
            == Ok::<SpecAttr, DecoError>(SpecAttr::Parametric { name, args: elems }),
{
    let ts = seq![SpecToken::Ident(name), SpecToken::Group(d, elems)];
    if elems.len() >= 1 && (forall|i: int|
        0 <= i < elems.len() ==> #[trigger] parses_as_expr(spec_render(elems[i]))) {
        lemma_collect_exprs_all(elems);
        reveal_with_fuel(attr_scan, 4);
        assert(ts.subrange(1, 2) =~= seq![SpecToken::Group(d, elems)]);
        assert(ts.subrange(1, 2).subrange(1, 1) =~= Seq::<SpecToken>::empty());
        assert(Seq::<SpecToken>::empty() + collect_exprs(elems) =~= elems);
    }
}

/// Argument presence is visible in the variant: with at least one
/// well-formed argument the result is never the `Fixed` form.
pub proof fn lemma_argument_presence_distinguishes(name: Seq<char>, d: Delim, elems: Seq<SpecToken>)
    ensures
        (elems.len() >= 1 && (forall|i: int|
            0 <= i < elems.len() ==> #[trigger] parses_as_expr(spec_render(elems[i]))))
            ==> (forall|n: Seq<char>|
            spec_parse_attr(seq![SpecToken::Ident(name), SpecToken::Group(d, elems)])
                != Ok::<SpecAttr, DecoError>(SpecAttr::Fixed { name: n })),
{
    lemma_args_are_parametric(name, d, elems);
}

/// An argument group with no elements collapses to the same `Fixed`
/// result as the bare name: the parentheses leave no trace.
pub proof fn lemma_empty_group_collapses(name: Seq<char>, d: Delim)
    ensures
        spec_parse_attr(seq![SpecToken::Ident(name), SpecToken::Group(d, Seq::empty())]) == Ok::<
            SpecAttr,
            DecoError,
        >(SpecAttr::Fixed { name }),
{
    let ts = seq![SpecToken::Ident(name), SpecToken::Group(d, Seq::<SpecToken>::empty())];
    reveal_with_fuel(attr_scan, 4);
    assert(ts.subrange(1, 2) =~= seq![SpecToken::Group(d, Seq::<SpecToken>::empty())]);
    assert(ts.subrange(1, 2).subrange(1, 1) =~= Seq::<SpecToken>::empty());
    assert(Seq::<SpecToken>::empty() + collect_exprs(Seq::<SpecToken>::empty()) =~= Seq::<
        SpecToken,
    >::empty());
}

/// Empty input always fails, with the missing-name error.
pub proof fn lemma_empty_input_fails()
    ensures
        spec_parse_attr(Seq::<SpecToken>::empty()) == Err::<SpecAttr, DecoError>(
            DecoError::NameNotFound,
        ),
{
}

/// A grouped token that stands before any identifier makes the whole
/// annotation fail as malformed.
pub proof fn lemma_group_before_name_fails(ts: Seq<SpecToken>, i: int)
    ensures
        (0 <= i < ts.len() && ts[i] is Group && (forall|j: int| 0 <= j < i ==> !(#[trigger] ts[j] is Ident)))
            ==> spec_parse_attr(ts) == Err::<SpecAttr, DecoError>(DecoError::InvalidTokenSequence),
{
    if 0 <= i < ts.len() && ts[i] is Group && (forall|j: int|
        0 <= j < i ==> !(#[trigger] ts[j] is Ident)) {
        if i == 0 {
            assert(ts[0] is Group);
        } else {
            assert(!(ts[0] is Ident));
        }
    }
}

/// A parse can only yield `Parametric` with at least one argument:
/// the structured form keeps its invariant.
pub proof fn lemma_parametric_nonempty(ts: Seq<SpecToken>)
    ensures
        spec_parse_attr(ts) matches Ok(SpecAttr::Parametric { args, .. }) ==> args.len() >= 1,
{
    lemma_scan_parametric_nonempty(ts, Option::None, Seq::empty());
}

proof fn lemma_scan_parametric_nonempty(
    ts: Seq<SpecToken>,
    name: Option<Seq<char>>,
    args: Seq<SpecToken>,
)
    ensures
        attr_scan(ts, name, args) matches Ok(SpecAttr::Parametric { args: out, .. })
            ==> out.len() >= 1,
    decreases ts.len(),
{
    if ts.len() > 0 {
        match ts[0] {
            SpecToken::Ident(s) => {
                lemma_scan_parametric_nonempty(
                    ts.subrange(1, ts.len() as int),
                    match name {
                        Option::None => Option::Some(s),
                        Option::Some(n) => Option::Some(n),
                    },
                    args,
                );
            },
            SpecToken::Group(d, elems) => {
                if name is Some {
                    lemma_scan_parametric_nonempty(
                        ts.subrange(1, ts.len() as int),
                        name,
                        args + collect_exprs(elems),
                    );
                }
            },
            SpecToken::Fragment(_) => {},
        }
    }
}

} // verus!
