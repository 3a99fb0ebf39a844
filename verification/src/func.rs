//! The function-signature extractor: turns the annotated item's
//! token sequence into a structured `Function`, rejecting anything
//! that is not a free function definition with simple named
//! parameters.

use vstd::prelude::*;

use crate::token::{
    dup_range, is_frag, is_frag_tok, is_ident, is_ident_tok, lemma_view_tokens_index,
    lemma_view_tokens_len, lemma_view_tokens_subrange, view_token, view_tokens, Delim, SpecToken,
    Token,
};
use crate::DecoError;

verus! {

/// One parameter: its binding name and its declared type, kept
/// verbatim as tokens.
#[derive(Debug, PartialEq, Eq)]
pub struct Param {
    pub name: String,
    pub ty: Vec<Token>,
}

/// The model of a parameter.
#[verifier::ext_equal]
pub struct SpecParam {
    pub name: Seq<char>,
    pub ty: Seq<SpecToken>,
}

impl View for Param {
    type V = SpecParam;

    open spec fn view(&self) -> SpecParam {
        SpecParam { name: self.name@, ty: view_tokens(self.ty@) }
    }
}

/// The model of a parameter sequence, element by element.
pub open spec fn view_params(ps: Seq<Param>) -> Seq<SpecParam>
    decreases ps,
{
    if ps.len() == 0 {
        Seq::empty()
    } else {
        seq![ps[0]@] + view_params(ps.subrange(1, ps.len() as int))
    }
}

pub broadcast proof fn lemma_view_params_len(ps: Seq<Param>)
    ensures
        #[trigger] view_params(ps).len() == ps.len(),
    decreases ps.len(),
{
    if ps.len() > 0 {
        lemma_view_params_len(ps.subrange(1, ps.len() as int));
    }
}

pub broadcast proof fn lemma_view_params_index(ps: Seq<Param>, i: int)
    requires
        0 <= i < ps.len(),
    ensures
        #[trigger] view_params(ps)[i] == ps[i]@,
    decreases ps.len(),
{
    broadcast use lemma_view_params_len;

    if i > 0 {
        lemma_view_params_index(ps.subrange(1, ps.len() as int), i - 1);
    }
}

pub broadcast proof fn lemma_view_params_push(ps: Seq<Param>, p: Param)
    ensures
        #[trigger] view_params(ps.push(p)) == view_params(ps).push(p@),
{
    broadcast use lemma_view_params_len, lemma_view_params_index;

    let l = view_params(ps.push(p));
    let r = view_params(ps).push(p@);
    assert forall|i: int| 0 <= i < r.len() implies l[i] == r[i] by {
        lemma_view_params_index(ps.push(p), i);
        if i < ps.len() {
            assert(ps.push(p)[i] == ps[i]);
        } else {
            assert(ps.push(p)[i] == p);
        }
    }
    lemma_view_params_len(ps.push(p));
    assert(l =~= r);
}

/// The extracted signature of the annotated function: visibility
/// tokens, name, parameters in declaration order, optional return
/// type, and the body kept opaquely.
#[derive(Debug, PartialEq, Eq)]
pub struct Function {
    pub vis: Vec<Token>,
    pub ident: String,
    pub params: Vec<Param>,
    pub output: Option<Vec<Token>>,
    pub block: Vec<Token>,
}

/// The model of an extracted function signature.
#[verifier::ext_equal]
pub struct SpecFunc {
    pub vis: Seq<SpecToken>,
    pub name: Seq<char>,
    pub params: Seq<SpecParam>,
    pub output: Option<Seq<SpecToken>>,
    pub block: Seq<SpecToken>,
}

impl View for Function {
    type V = SpecFunc;

    open spec fn view(&self) -> SpecFunc {
        SpecFunc {
            vis: view_tokens(self.vis@),
            name: self.ident@,
            params: view_params(self.params@),
            output: match self.output {
                Option::None => Option::None,
                Option::Some(ty) => Option::Some(view_tokens(ty@)),
            },
            block: view_tokens(self.block@),
        }
    }
}

/// The first position in `[from, until)` holding the fragment `w`,
/// or `until` if there is none.
pub open spec fn find_frag_until(ts: Seq<SpecToken>, from: int, until: int, w: Seq<char>) -> int
    decreases until - from,
{
    if from >= until {
        until
    } else if is_frag(ts[from], w) {
        from
    } else {
        find_frag_until(ts, from + 1, until, w)
    }
}

pub proof fn lemma_find_frag_until(ts: Seq<SpecToken>, from: int, until: int, w: Seq<char>)
    requires
        0 <= from <= until,
    ensures
        from <= find_frag_until(ts, from, until, w) <= until,
        find_frag_until(ts, from, until, w) < until ==> is_frag(
            ts[find_frag_until(ts, from, until, w)],
            w,
        ),
        forall|j: int|
            from <= j < find_frag_until(ts, from, until, w) ==> !is_frag(#[trigger] ts[j], w),
    decreases until - from,
{
    if from < until && !is_frag(ts[from], w) {
        lemma_find_frag_until(ts, from + 1, until, w);
    }
}

/// One parameter chunk `ts[from..k]`: it must be a simple named
/// binding `name : type`. A receiver (`self` in any form) marks an
/// associated function; any other pattern is unsupported.
pub open spec fn parse_one_param(ts: Seq<SpecToken>, from: int, k: int) -> Result<
    SpecParam,
    DecoError,
> {
    let c = find_frag_until(ts, from, k, ":"@);
    if c >= k {
        if exists|j: int| from <= j < k && is_ident(#[trigger] ts[j], "self"@) {
            Err(DecoError::NotAFunction)
        } else {
            Err(DecoError::UnsupportedParamPattern)
        }
    } else if c != from + 1 {
        Err(DecoError::UnsupportedParamPattern)
    } else {
        match ts[from] {
            SpecToken::Ident(nm) => {
                if nm == "self"@ {
                    Err(DecoError::NotAFunction)
                } else if nm == "_"@ {
                    Err(DecoError::UnsupportedParamPattern)
                } else if c + 1 >= k {
                    Err(DecoError::NotAFunction)
                } else {
                    Ok(SpecParam { name: nm, ty: ts.subrange(c + 1, k) })
                }
            },
            _ => Err(DecoError::UnsupportedParamPattern),
        }
    }
}

/// The whole parameter list, split at top-level commas, in order.
pub open spec fn params_scan(ts: Seq<SpecToken>, from: int) -> Result<Seq<SpecParam>, DecoError>
    decreases ts.len() - from,
{
    if from < 0 || from >= ts.len() {
        Ok(Seq::empty())
    } else {
        let k = find_frag_until(ts, from, ts.len() as int, ","@);
        match parse_one_param(ts, from, k) {
            Err(e) => Err(e),
            Ok(p) => {
                if k >= ts.len() {
                    Ok(seq![p])
                } else {
                    proof {
                        lemma_find_frag_until(ts, from, ts.len() as int, ","@);
                    }
                    match params_scan(ts, k + 1) {
                        Err(e) => Err(e),
                        Ok(rest) => Ok(seq![p] + rest),
                    }
                }
            },
        }
    }
}

/// How many leading tokens are the visibility marker: `pub`,
/// optionally with its own parenthesized restriction.
pub open spec fn vis_len(ts: Seq<SpecToken>) -> int {
    if ts.len() >= 1 && is_ident(ts[0], "pub"@) {
        if ts.len() >= 2 && (ts[1] matches SpecToken::Group(Delim::Paren, _)) {
            2
        } else {
            1
        }
    } else {
        0
    }
}

/// The item grammar: `vis? fn name ( params ) [-> type] { body }`.
/// Anything else is not a free function definition.
pub open spec fn spec_extract(ts: Seq<SpecToken>) -> Result<SpecFunc, DecoError> {
    let n = ts.len() as int;
    let v = vis_len(ts);
    if n < v + 4 || !is_ident(ts[v], "fn"@) {
        Err(DecoError::NotAFunction)
    } else {
        match ts[v + 1] {
            SpecToken::Ident(nm) => match ts[v + 2] {
                SpecToken::Group(Delim::Paren, ptoks) => match ts[n - 1] {
                    SpecToken::Group(Delim::Brace, body) => {
                        let ret: Result<Option<Seq<SpecToken>>, ()> = if v + 3 == n - 1 {
                            Ok(Option::None)
                        } else if n >= v + 7 && is_frag(ts[v + 3], "-"@) && is_frag(
                            ts[v + 4],
                            ">"@,
                        ) {
                            Ok(Option::Some(ts.subrange(v + 5, n - 1)))
                        } else {
                            Err(())
                        };
                        match ret {
                            Err(_) => Err(DecoError::NotAFunction),
                            Ok(output) => match params_scan(ptoks, 0) {
                                Err(e) => Err(e),
                                Ok(ps) => Ok(
                                    SpecFunc {
                                        vis: ts.subrange(0, v),
                                        name: nm,
                                        params: ps,
                                        output,
                                        block: body,
                                    },
                                ),
                            },
                        }
                    },
                    _ => Err(DecoError::NotAFunction),
                },
                _ => Err(DecoError::NotAFunction),
            },
            _ => Err(DecoError::NotAFunction),
        }
    }
}

/// A parameter bound by a pattern instead of one simple name — for
/// instance a destructured tuple, `(a , b) : (i32 , i32)` — always
/// fails extraction with the unsupported-parameter error, never
/// silently. Stated for a single-parameter free function of shape
/// `fn name ( pattern : type ) { body }`.
pub proof fn lemma_destructured_param_fails(
    fname: Seq<char>,
    ptoks: Seq<SpecToken>,
    body: Seq<SpecToken>,
)
    ensures
        (ptoks.len() >= 2 && ptoks[0] is Group && is_frag(ptoks[1], ":"@) && (forall|j: int|
            0 <= j < ptoks.len() ==> !is_frag(#[trigger] ptoks[j], ","@))) ==> spec_extract(
            seq![
                SpecToken::Ident("fn"@),
                SpecToken::Ident(fname),
                SpecToken::Group(Delim::Paren, ptoks),
                SpecToken::Group(Delim::Brace, body),
            ],
        ) == Err::<SpecFunc, DecoError>(DecoError::UnsupportedParamPattern),
{
    if ptoks.len() >= 2 && ptoks[0] is Group && is_frag(ptoks[1], ":"@) && (forall|j: int|
        0 <= j < ptoks.len() ==> !is_frag(#[trigger] ptoks[j], ","@)) {
        let ts = seq![
            SpecToken::Ident("fn"@),
            SpecToken::Ident(fname),
            SpecToken::Group(Delim::Paren, ptoks),
            SpecToken::Group(Delim::Brace, body),
        ];
        reveal_strlit("fn");
        reveal_strlit("pub");
        assert("fn"@.len() == 2);
        assert("pub"@.len() == 3);
        assert(!is_ident(ts[0], "pub"@));
        assert(vis_len(ts) == 0);
        let k = find_frag_until(ptoks, 0, ptoks.len() as int, ","@);
        lemma_find_frag_until(ptoks, 0, ptoks.len() as int, ","@);
        assert(k == ptoks.len());
        reveal_with_fuel(find_frag_until, 3);
        assert(find_frag_until(ptoks, 0, k, ":"@) == 1);
        assert(parse_one_param(ptoks, 0, k) == Err::<SpecParam, DecoError>(
            DecoError::UnsupportedParamPattern,
        ));
        assert(params_scan(ptoks, 0) == Err::<Seq<SpecParam>, DecoError>(
            DecoError::UnsupportedParamPattern,
        ));
    }
}

/// The first position in `[from, until)` of the vector holding the
/// fragment `w`, or `until` if there is none.
fn find_fragment(ts: &Vec<Token>, from: usize, until: usize, w: &str) -> (r: usize)
    requires
        from <= until <= ts.len(),
    ensures
        r == find_frag_until(view_tokens(ts@), from as int, until as int, w@),
        from <= r <= until,
{
    let ghost all = view_tokens(ts@);
    proof {
        lemma_view_tokens_len(ts@);
    }
    let mut j: usize = from;
    while j < until
        invariant
            from <= j <= until <= ts.len(),
            all == view_tokens(ts@),
            all.len() == ts@.len(),
            find_frag_until(all, from as int, until as int, w@) == find_frag_until(
                all,
                j as int,
                until as int,
                w@,
            ),
        decreases until - j,
    {
        proof {
            lemma_view_tokens_index(ts@, j as int);
        }
        if is_frag_tok(&ts[j], w) {
            return j;
        }
        j += 1;
    }
    until
}

fn parse_chunk(ts: &Vec<Token>, from: usize, k: usize) -> (r: Result<Param, DecoError>)
    requires
        from <= k <= ts.len(),
    ensures
        match r {
            Ok(p) => parse_one_param(view_tokens(ts@), from as int, k as int) == Ok::<
                SpecParam,
                DecoError,
            >(p@),
            Err(e) => parse_one_param(view_tokens(ts@), from as int, k as int) == Err::<
                SpecParam,
                DecoError,
            >(e),
        },
{
    let ghost all = view_tokens(ts@);
    proof {
        lemma_view_tokens_len(ts@);
    }
    let c = find_fragment(ts, from, k, ":");
    if c >= k {
        let mut found = false;
        let mut j: usize = from;
        while j < k
            invariant
                from <= j <= k <= ts.len(),
                all == view_tokens(ts@),
                all.len() == ts@.len(),
                found == exists|t: int| from <= t < j && is_ident(#[trigger] all[t], "self"@),
            decreases k - j,
        {
            proof {
                lemma_view_tokens_index(ts@, j as int);
            }
            if is_ident_tok(&ts[j], "self") {
                found = true;
            }
            j += 1;
        }
        if found {
            Err(DecoError::NotAFunction)
        } else {
            Err(DecoError::UnsupportedParamPattern)
        }
    } else if c != from + 1 {
        Err(DecoError::UnsupportedParamPattern)
    } else {
        proof {
            lemma_view_tokens_index(ts@, from as int);
        }
        match &ts[from] {
            Token::Ident(nm) => {
                if is_ident_tok(&ts[from], "self") {
                    Err(DecoError::NotAFunction)
                } else if is_ident_tok(&ts[from], "_") {
                    Err(DecoError::UnsupportedParamPattern)
                } else if c + 1 >= k {
                    Err(DecoError::NotAFunction)
                } else {
                    let ty = dup_range(ts, c + 1, k);
                    proof {
                        lemma_view_tokens_subrange(ts@, c + 1, k as int);
                    }
                    Ok(Param { name: nm.clone(), ty })
                }
            },
            _ => Err(DecoError::UnsupportedParamPattern),
        }
    }
}

fn parse_params(ts: &Vec<Token>) -> (r: Result<Vec<Param>, DecoError>)
    ensures
        match r {
            Ok(ps) => params_scan(view_tokens(ts@), 0) == Ok::<Seq<SpecParam>, DecoError>(
                view_params(ps@),
            ),
            Err(e) => params_scan(view_tokens(ts@), 0) == Err::<Seq<SpecParam>, DecoError>(e),
        },
{
    let ghost all = view_tokens(ts@);
    proof {
        lemma_view_tokens_len(ts@);
        assert(view_params(Seq::<Param>::empty()) =~= Seq::<SpecParam>::empty());
    }
    let mut out: Vec<Param> = Vec::new();
    let mut from: usize = 0;
    while from < ts.len()
        invariant
            from <= ts.len(),
            all == view_tokens(ts@),
            all.len() == ts@.len(),
            match params_scan(all, from as int) {
                Ok(rest) => params_scan(all, 0) == Ok::<Seq<SpecParam>, DecoError>(
                    view_params(out@) + rest,
                ),
                Err(e) => params_scan(all, 0) == Err::<Seq<SpecParam>, DecoError>(e),
            },
        decreases ts.len() - from,
    {
        let k = find_fragment(ts, from, ts.len(), ",");
        proof {
            lemma_find_frag_until(all, from as int, all.len() as int, ","@);
        }
        match parse_chunk(ts, from, k) {
            Err(e) => {
                return Err(e);
            },
            Ok(p) => {
                let ghost pre = out@;
                out.push(p);
                proof {
                    lemma_view_params_push(pre, p);
                }
                if k >= ts.len() {
                    proof {
                        assert(view_params(out@) =~= view_params(pre) + seq![p@]);
                    }
                    from = ts.len();
                } else {
                    proof {
                        match params_scan(all, k + 1) {
                            Ok(rest) => {
                                assert(view_params(pre) + (seq![p@] + rest) =~= view_params(out@)
                                    + rest);
                            },
                            Err(_) => {},
                        }
                    }
                    from = k + 1;
                }
            },
        }
    }
    proof {
        assert(view_params(out@) + Seq::<SpecParam>::empty() =~= view_params(out@));
    }
    Ok(out)
}

impl Function {
    /// Extracts the signature of a free function definition from its
    /// token sequence, exactly as `spec_extract` states.
    pub fn parse(tokens: &Vec<Token>) -> (r: Result<Function, DecoError>)
        ensures
            match r {
                Ok(f) => spec_extract(view_tokens(tokens@)) == Ok::<SpecFunc, DecoError>(f@),
                Err(e) => spec_extract(view_tokens(tokens@)) == Err::<SpecFunc, DecoError>(e),
            },
    {
        let ghost all = view_tokens(tokens@);
        proof {
            lemma_view_tokens_len(tokens@);
            if tokens@.len() >= 1 {
                lemma_view_tokens_index(tokens@, 0);
            }
            if tokens@.len() >= 2 {
                lemma_view_tokens_index(tokens@, 1);
            }
        }
        let n = tokens.len();
        let v: usize = if n >= 1 && is_ident_tok(&tokens[0], "pub") {
            if n >= 2 && (matches!(&tokens[1], Token::Group(Delim::Paren, _))) {
                2
            } else {
                1
            }
        } else {
            0
        };
        proof {
            assert(v as int == vis_len(all));
        }
        if n < v + 4 {
            return Err(DecoError::NotAFunction);
        }
        proof {
            lemma_view_tokens_index(tokens@, v as int);
            lemma_view_tokens_index(tokens@, v + 1);
            lemma_view_tokens_index(tokens@, v + 2);
            lemma_view_tokens_index(tokens@, n - 1);
        }
        if !is_ident_tok(&tokens[v], "fn") {
            return Err(DecoError::NotAFunction);
        }
        let nm: String = match &tokens[v + 1] {
            Token::Ident(s) => s.clone(),
            _ => {
                return Err(DecoError::NotAFunction);
            },
        };
        let ptoks: &Vec<Token> = match &tokens[v + 2] {
            Token::Group(Delim::Paren, g) => g,
            _ => {
                return Err(DecoError::NotAFunction);
            },
        };
        let body: &Vec<Token> = match &tokens[n - 1] {
            Token::Group(Delim::Brace, g) => g,
            _ => {
                return Err(DecoError::NotAFunction);
            },
        };
        let output: Option<Vec<Token>> = if v + 3 == n - 1 {
            Option::None
        } else if n >= v + 7 && is_frag_tok(&tokens[v + 3], "-") && is_frag_tok(
            &tokens[v + 4],
            ">",
        ) {
            proof {
                lemma_view_tokens_index(tokens@, v + 3);
                lemma_view_tokens_index(tokens@, v + 4);
                lemma_view_tokens_subrange(tokens@, v + 5, n - 1);
            }
            Option::Some(dup_range(tokens, v + 5, n - 1))
        } else {
            proof {
                lemma_view_tokens_index(tokens@, v + 3);
                lemma_view_tokens_index(tokens@, v + 4);
            }
            return Err(DecoError::NotAFunction);
        };
        let params: Vec<Param> = match parse_params(ptoks) {
            Ok(ps) => ps,
            Err(e) => {
                return Err(e);
            },
        };
        let vis = dup_range(tokens, 0, v);
        let block = dup_range(body, 0, body.len());
        proof {
            lemma_view_tokens_subrange(tokens@, 0, v as int);
            assert(body@.subrange(0, body@.len() as int) =~= body@);
        }
        let f = Function { vis, ident: nm, params, output, block };
        proof {
            match spec_extract(all) {
                Ok(sf) => {
                    assert(f@ =~~= sf);
                },
                Err(_) => {},
            }
        }
        Ok(f)
    }

    /// The parameter names, in declaration order: these drive the
    /// forwarding call of the synthesized function.
    pub fn input_values(&self) -> (names: Vec<String>)
        ensures
            names@.len() == self@.params.len(),
            forall|i: int| 0 <= i < names@.len() ==> names@[i]@ == self@.params[i].name,
    {
        broadcast use lemma_view_params_len, lemma_view_params_index;

        let mut names: Vec<String> = Vec::new();
        let mut i: usize = 0;
        while i < self.params.len()
            invariant
                i <= self.params.len(),
                names@.len() == i,
                forall|j: int| 0 <= j < i ==> names@[j]@ == view_params(self.params@)[j].name,
            decreases self.params.len() - i,
        {
            names.push(self.params[i].name.clone());
            proof {
                lemma_view_params_index(self.params@, i as int);
            }
            i += 1;
        }
        names
    }
}

} // verus!
