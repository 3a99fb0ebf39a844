//! The code generator: combines a `DecoratorAttr` and a `Function`
//! into the replacement function's token sequence. The outer
//! function keeps the original visibility, name, parameter list and
//! return type; its body resolves the decorator, applies it to an
//! inner copy of the original function, and forwards the parameters
//! by name, in declaration order.

use vstd::prelude::*;

use crate::attr::{DecoratorAttr, SpecAttr};
use crate::func::{Function, SpecFunc, SpecParam};
use crate::token::{
    dup_range, extend_tokens, fragment_token, ident_token, push_tok, view_token, view_tokens,
    Delim, SpecToken, Token,
};

verus! {

/// The parameter list re-emitted for a function header:
/// `name : type ,` for each parameter, in declaration order.
pub open spec fn param_list_toks(ps: Seq<SpecParam>) -> Seq<SpecToken>
    decreases ps.len(),
{
    if ps.len() == 0 {
        Seq::empty()
    } else {
        param_list_toks(ps.drop_last()) + seq![
            SpecToken::Ident(ps.last().name),
            SpecToken::Fragment(":"@),
        ] + ps.last().ty + seq![SpecToken::Fragment(","@)]
    }
}

/// The forwarding arguments: `name ,` for each parameter, in
/// declaration order.
pub open spec fn fwd_arg_toks(ps: Seq<SpecParam>) -> Seq<SpecToken>
    decreases ps.len(),
{
    if ps.len() == 0 {
        Seq::empty()
    } else {
        fwd_arg_toks(ps.drop_last()) + seq![
            SpecToken::Ident(ps.last().name),
            SpecToken::Fragment(","@),
        ]
    }
}

/// The decorator-construction arguments: each argument expression
/// followed by a comma, in source order, each exactly once.
pub open spec fn call_arg_toks(args: Seq<SpecToken>) -> Seq<SpecToken>
    decreases args.len(),
{
    if args.len() == 0 {
        Seq::empty()
    } else {
        call_arg_toks(args.drop_last()) + seq![args.last(), SpecToken::Fragment(","@)]
    }
}

/// The re-emitted return type: nothing, or `-> type`.
pub open spec fn ret_toks(output: Option<Seq<SpecToken>>) -> Seq<SpecToken> {
    match output {
        Option::None => Seq::empty(),
        Option::Some(ty) => seq![SpecToken::Fragment("-"@), SpecToken::Fragment(">"@)] + ty,
    }
}

/// The outer function's header: the original visibility, name,
/// parameter list and return type, unchanged.
pub open spec fn sig_toks(f: SpecFunc) -> Seq<SpecToken> {
    f.vis + seq![
        SpecToken::Ident("fn"@),
        SpecToken::Ident(f.name),
        SpecToken::Group(Delim::Paren, param_list_toks(f.params)),
    ] + ret_toks(f.output)
}

/// The inner function: same parameter list and return type, the
/// original body verbatim, under the lexically distinct name
/// `deco_internal`.
pub open spec fn inner_fn_toks(f: SpecFunc) -> Seq<SpecToken> {
    seq![
        SpecToken::Ident("fn"@),
        SpecToken::Ident("deco_internal"@),
        SpecToken::Group(Delim::Paren, param_list_toks(f.params)),
    ] + ret_toks(f.output) + seq![SpecToken::Group(Delim::Brace, f.block)]
}

/// The statements that resolve the decorator value and bind the
/// wrapped callable `f`: a fixed decorator is referenced directly; a
/// parametric one is first constructed by calling its factory with
/// the arguments, at the outer function's call time.
pub open spec fn decorate_stmts(a: SpecAttr) -> Seq<SpecToken> {
    match a {
        SpecAttr::Fixed { name } => seq![
            SpecToken::Ident("let"@),
            SpecToken::Ident("f"@),
            SpecToken::Fragment("="@),
            SpecToken::Ident(name),
            SpecToken::Group(Delim::Paren, seq![SpecToken::Ident("deco_internal"@)]),
            SpecToken::Fragment(";"@),
        ],
        SpecAttr::Parametric { name, args } => seq![
            SpecToken::Ident("let"@),
            SpecToken::Ident("deco"@),
            SpecToken::Fragment("="@),
            SpecToken::Ident(name),
            SpecToken::Group(Delim::Paren, call_arg_toks(args)),
            SpecToken::Fragment(";"@),
            SpecToken::Ident("let"@),
            SpecToken::Ident("f"@),
            SpecToken::Fragment("="@),
            SpecToken::Ident("deco"@),
            SpecToken::Group(Delim::Paren, seq![SpecToken::Ident("deco_internal"@)]),
            SpecToken::Fragment(";"@),
        ],
    }
}

/// How many tokens `decorate_stmts` takes.
pub open spec fn decorate_len(a: SpecAttr) -> int {
    match a {
        SpecAttr::Fixed { .. } => 6,
        SpecAttr::Parametric { .. } => 12,
    }
}

/// The outer function's body: resolve the decorator, return the
/// wrapped call with the parameters forwarded by name, and define
/// the inner function.
pub open spec fn body_toks(a: SpecAttr, f: SpecFunc) -> Seq<SpecToken> {
    decorate_stmts(a) + seq![
        SpecToken::Ident("return"@),
        SpecToken::Ident("f"@),
        SpecToken::Group(Delim::Paren, fwd_arg_toks(f.params)),
        SpecToken::Fragment(";"@),
    ] + inner_fn_toks(f)
}

/// The whole replacement definition.
pub open spec fn gen_spec(a: SpecAttr, f: SpecFunc) -> Seq<SpecToken> {
    sig_toks(f) + seq![SpecToken::Group(Delim::Brace, body_toks(a, f))]
}

pub proof fn lemma_fwd_args_order(ps: Seq<SpecParam>, i: int)
    ensures
        fwd_arg_toks(ps).len() == 2 * ps.len(),
        (0 <= i < ps.len()) ==> fwd_arg_toks(ps)[2 * i] == SpecToken::Ident(ps[i].name),
        (0 <= i < ps.len()) ==> fwd_arg_toks(ps)[2 * i + 1] == SpecToken::Fragment(","@),
    decreases ps.len(),
{
    if ps.len() > 0 {
        lemma_fwd_args_order(ps.drop_last(), i);
        if 0 <= i < ps.len() - 1 {
            assert(ps.drop_last()[i] == ps[i]);
        }
    }
}

pub proof fn lemma_call_args_order(args: Seq<SpecToken>, i: int)
    ensures
        call_arg_toks(args).len() == 2 * args.len(),
        (0 <= i < args.len()) ==> call_arg_toks(args)[2 * i] == args[i],
        (0 <= i < args.len()) ==> call_arg_toks(args)[2 * i + 1] == SpecToken::Fragment(","@),
    decreases args.len(),
{
    if args.len() > 0 {
        lemma_call_args_order(args.drop_last(), i);
        if 0 <= i < args.len() - 1 {
            assert(args.drop_last()[i] == args[i]);
        }
    }
}

/// Parameter forwarding preserves order: the wrapped callable is
/// invoked with exactly the outer function's parameter names, one
/// each, in declaration order.
pub proof fn lemma_forwarding_preserves_order(a: SpecAttr, f: SpecFunc, i: int)
    ensures
        body_toks(a, f)[decorate_len(a) + 2] == SpecToken::Group(
            Delim::Paren,
            fwd_arg_toks(f.params),
        ),
        fwd_arg_toks(f.params).len() == 2 * f.params.len(),
        (0 <= i < f.params.len()) ==> fwd_arg_toks(f.params)[2 * i] == SpecToken::Ident(
            f.params[i].name,
        ),
{
    lemma_fwd_args_order(f.params, i);
    assert(decorate_stmts(a).len() == decorate_len(a));
}

/// Parametric argument evaluation order: the factory call stands
/// inside the outer function's body — so its arguments are evaluated
/// at call time, not at definition time — and it lists the argument
/// expressions left to right, each exactly once.
pub proof fn lemma_factory_args_order(name: Seq<char>, args: Seq<SpecToken>, f: SpecFunc, i: int)
    ensures
        body_toks(SpecAttr::Parametric { name, args }, f)[3] == SpecToken::Ident(name),
        body_toks(SpecAttr::Parametric { name, args }, f)[4] == SpecToken::Group(
            Delim::Paren,
            call_arg_toks(args),
        ),
        call_arg_toks(args).len() == 2 * args.len(),
        (0 <= i < args.len()) ==> call_arg_toks(args)[2 * i] == args[i],
        (0 <= i < args.len()) ==> call_arg_toks(args)[2 * i + 1] == SpecToken::Fragment(","@),
{
    lemma_call_args_order(args, i);
    let a = SpecAttr::Parametric { name, args };
    assert(decorate_stmts(a).len() == 12);
    assert(body_toks(a, f)[3] == decorate_stmts(a)[3]);
    assert(body_toks(a, f)[4] == decorate_stmts(a)[4]);
}

/// The structural half of the round trip: the replacement keeps the
/// original visibility, name, parameter list and return type
/// unchanged at its head, the inner function repeats that parameter
/// list, and the inner body is the original body, verbatim. With an
/// identity decorator nothing else stands between the caller and
/// that body.
pub proof fn lemma_signature_preserved(a: SpecAttr, f: SpecFunc)
    ensures
        gen_spec(a, f) == sig_toks(f) + seq![SpecToken::Group(Delim::Brace, body_toks(a, f))],
        gen_spec(a, f).subrange(0, f.vis.len() as int) == f.vis,
        gen_spec(a, f)[f.vis.len() as int] == SpecToken::Ident("fn"@),
        gen_spec(a, f)[f.vis.len() as int + 1] == SpecToken::Ident(f.name),
        gen_spec(a, f)[f.vis.len() as int + 2] == SpecToken::Group(
            Delim::Paren,
            param_list_toks(f.params),
        ),
        inner_fn_toks(f)[2] == SpecToken::Group(Delim::Paren, param_list_toks(f.params)),
        body_toks(a, f).last() == SpecToken::Group(Delim::Brace, f.block),
        body_toks(a, f)[decorate_len(a)] == SpecToken::Ident("return"@),
{
    assert(gen_spec(a, f).subrange(0, f.vis.len() as int) =~= f.vis);
    assert(decorate_stmts(a).len() == decorate_len(a));
    assert(inner_fn_toks(f).last() == SpecToken::Group(Delim::Brace, f.block));
    assert(body_toks(a, f).last() == inner_fn_toks(f).last());
}

fn build_param_list(ps: &Vec<crate::func::Param>) -> (v: Vec<Token>)
    ensures
        view_tokens(v@) == param_list_toks(crate::func::view_params(ps@)),
{
    let ghost psv = crate::func::view_params(ps@);
    proof {
        crate::func::lemma_view_params_len(ps@);
        assert(psv.subrange(0, 0) =~= Seq::<SpecParam>::empty());
    }
    let mut v: Vec<Token> = Vec::new();
    let mut i: usize = 0;
    while i < ps.len()
        invariant
            i <= ps.len(),
            psv == crate::func::view_params(ps@),
            psv.len() == ps@.len(),
            view_tokens(v@) == param_list_toks(psv.subrange(0, i as int)),
        decreases ps.len() - i,
    {
        proof {
            crate::func::lemma_view_params_index(ps@, i as int);
        }
        push_tok(&mut v, Token::Ident(ps[i].name.clone()));
        push_tok(&mut v, fragment_token(":"));
        extend_tokens(&mut v, &ps[i].ty);
        push_tok(&mut v, fragment_token(","));
        proof {
            let prefix = psv.subrange(0, i as int);
            assert(psv.subrange(0, i + 1).drop_last() =~= prefix);
            assert(psv.subrange(0, i + 1).last() == psv[i as int]);
            assert(view_tokens(v@) =~= param_list_toks(psv.subrange(0, i + 1)));
        }
        i += 1;
    }
    proof {
        assert(psv.subrange(0, psv.len() as int) =~= psv);
    }
    v
}

fn build_fwd_args(ps: &Vec<crate::func::Param>) -> (v: Vec<Token>)
    ensures
        view_tokens(v@) == fwd_arg_toks(crate::func::view_params(ps@)),
{
    let ghost psv = crate::func::view_params(ps@);
    proof {
        crate::func::lemma_view_params_len(ps@);
        assert(psv.subrange(0, 0) =~= Seq::<SpecParam>::empty());
    }
    let mut v: Vec<Token> = Vec::new();
    let mut i: usize = 0;
    while i < ps.len()
        invariant
            i <= ps.len(),
            psv == crate::func::view_params(ps@),
            psv.len() == ps@.len(),
            view_tokens(v@) == fwd_arg_toks(psv.subrange(0, i as int)),
        decreases ps.len() - i,
    {
        proof {
            crate::func::lemma_view_params_index(ps@, i as int);
        }
        push_tok(&mut v, Token::Ident(ps[i].name.clone()));
        push_tok(&mut v, fragment_token(","));
        proof {
            let prefix = psv.subrange(0, i as int);
            assert(psv.subrange(0, i + 1).drop_last() =~= prefix);
            assert(psv.subrange(0, i + 1).last() == psv[i as int]);
            assert(view_tokens(v@) =~= fwd_arg_toks(psv.subrange(0, i + 1)));
        }
        i += 1;
    }
    proof {
        assert(psv.subrange(0, psv.len() as int) =~= psv);
    }
    v
}

fn build_call_args(args: &Vec<Token>) -> (v: Vec<Token>)
    ensures
        view_tokens(v@) == call_arg_toks(view_tokens(args@)),
{
    let ghost av = view_tokens(args@);
    proof {
        crate::token::lemma_view_tokens_len(args@);
        assert(av.subrange(0, 0) =~= Seq::<SpecToken>::empty());
    }
    let mut v: Vec<Token> = Vec::new();
    let mut i: usize = 0;
    while i < args.len()
        invariant
            i <= args.len(),
            av == view_tokens(args@),
            av.len() == args@.len(),
            view_tokens(v@) == call_arg_toks(av.subrange(0, i as int)),
        decreases args.len() - i,
    {
        proof {
            crate::token::lemma_view_tokens_index(args@, i as int);
        }
        push_tok(&mut v, crate::token::dup_token(&args[i]));
        push_tok(&mut v, fragment_token(","));
        proof {
            let prefix = av.subrange(0, i as int);
            assert(av.subrange(0, i + 1).drop_last() =~= prefix);
            assert(av.subrange(0, i + 1).last() == av[i as int]);
            assert(view_tokens(v@) =~= call_arg_toks(av.subrange(0, i + 1)));
        }
        i += 1;
    }
    proof {
        assert(av.subrange(0, av.len() as int) =~= av);
    }
    v
}

fn build_ret(output: &Option<Vec<Token>>) -> (v: Vec<Token>)
    ensures
        view_tokens(v@) == ret_toks(
            match *output {
                Option::None => Option::None,
                Option::Some(ty) => Option::Some(view_tokens(ty@)),
            },
        ),
{
    let mut v: Vec<Token> = Vec::new();
    match output {
        Option::None => {
            proof {
                assert(view_tokens(v@) =~= Seq::<SpecToken>::empty());
            }
        },
        Option::Some(ty) => {
            push_tok(&mut v, fragment_token("-"));
            push_tok(&mut v, fragment_token(">"));
            extend_tokens(&mut v, ty);
            proof {
                assert(view_tokens(v@) =~= seq![
                    SpecToken::Fragment("-"@),
                    SpecToken::Fragment(">"@),
                ] + view_tokens(ty@));
            }
        },
    }
    v
}

/// Synthesizes the replacement function for the given decorator
/// annotation and extracted signature, exactly as `gen_spec` states.
#[verifier::rlimit(100)]
pub fn generate(attr: &DecoratorAttr, func: &Function) -> (out: Vec<Token>)
    ensures
        view_tokens(out@) == gen_spec(attr@, func@),
{
    let mut body: Vec<Token> = Vec::new();
    match attr {
        DecoratorAttr::Fixed { name } => {
            push_tok(&mut body, ident_token("let"));
            push_tok(&mut body, ident_token("f"));
            push_tok(&mut body, fragment_token("="));
            push_tok(&mut body, Token::Ident(name.clone()));
            let mut held: Vec<Token> = Vec::new();
            push_tok(&mut held, ident_token("deco_internal"));
            push_tok(&mut body, Token::Group(Delim::Paren, held));
            push_tok(&mut body, fragment_token(";"));
            proof {
                assert(view_tokens(body@) =~~= decorate_stmts(attr@));
            }
        },
        DecoratorAttr::Parametric { name, args } => {
            push_tok(&mut body, ident_token("let"));
            push_tok(&mut body, ident_token("deco"));
            push_tok(&mut body, fragment_token("="));
            push_tok(&mut body, Token::Ident(name.clone()));
            push_tok(&mut body, Token::Group(Delim::Paren, build_call_args(args)));
            push_tok(&mut body, fragment_token(";"));
            push_tok(&mut body, ident_token("let"));
            push_tok(&mut body, ident_token("f"));
            push_tok(&mut body, fragment_token("="));
            push_tok(&mut body, ident_token("deco"));
            let mut held: Vec<Token> = Vec::new();
            push_tok(&mut held, ident_token("deco_internal"));
            push_tok(&mut body, Token::Group(Delim::Paren, held));
            push_tok(&mut body, fragment_token(";"));
            proof {
                assert(view_tokens(body@) =~~= decorate_stmts(attr@));
            }
        },
    }
    push_tok(&mut body, ident_token("return"));
    push_tok(&mut body, ident_token("f"));
    push_tok(&mut body, Token::Group(Delim::Paren, build_fwd_args(&func.params)));
    push_tok(&mut body, fragment_token(";"));
    push_tok(&mut body, ident_token("fn"));
    push_tok(&mut body, ident_token("deco_internal"));
    push_tok(&mut body, Token::Group(Delim::Paren, build_param_list(&func.params)));
    let inner_ret = build_ret(&func.output);
    extend_tokens(&mut body, &inner_ret);
    push_tok(&mut body, Token::Group(Delim::Brace, dup_range(&func.block, 0, func.block.len())));
    proof {
        assert(func.block@.subrange(0, func.block@.len() as int) =~= func.block@);
        assert(view_tokens(body@) =~~= body_toks(attr@, func@));
    }
    let mut out: Vec<Token> = Vec::new();
    proof {
        assert(view_tokens(Seq::<Token>::empty()) =~= Seq::<SpecToken>::empty());
    }
    extend_tokens(&mut out, &func.vis);
    push_tok(&mut out, ident_token("fn"));
    push_tok(&mut out, Token::Ident(func.ident.clone()));
    push_tok(&mut out, Token::Group(Delim::Paren, build_param_list(&func.params)));
    let outer_ret = build_ret(&func.output);
    extend_tokens(&mut out, &outer_ret);
    push_tok(&mut out, Token::Group(Delim::Brace, body));
    proof {
        assert(view_tokens(out@) =~~= gen_spec(attr@, func@));
    }
    out
}

} // verus!
