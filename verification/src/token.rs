//! The minimal lexical token model that every component works over:
//! an identifier, a delimited group of tokens, or any other single
//! token (a literal or punctuation) kept as its source text.

use vstd::prelude::*;
use vstd::string::*;

verus! {

pub broadcast group group_token_views {
    lemma_view_tokens_len,
    lemma_view_tokens_index,
    lemma_view_tokens_push,
}

/// The delimiter of a grouped token.
#[derive(Clone, Copy, Debug, PartialEq, Eq, Structural)]
pub enum Delim {
    Paren,
    Brace,
    Bracket,
}

/// One lexical token.
#[derive(Debug, PartialEq, Eq)]
pub enum Token {
    /// An identifier-shaped token (a word, including keywords).
    Ident(String),
    /// A delimited sub-sequence of tokens.
    Group(Delim, Vec<Token>),
    /// Any other single token, kept as its source text.
    Fragment(String),
}

/// The mathematical model of a token: strings become character
/// sequences and groups become sequences of modeled tokens.
#[verifier::ext_equal]
pub enum SpecToken {
    Ident(Seq<char>),
    Group(Delim, Seq<SpecToken>),
    Fragment(Seq<char>),
}

/// The model of a single token.
pub open spec fn view_token(t: Token) -> SpecToken
    decreases t,
{
    match t {
        Token::Ident(s) => SpecToken::Ident(s@),
        Token::Fragment(s) => SpecToken::Fragment(s@),
        Token::Group(d, ts) => SpecToken::Group(d, view_tokens(ts@)),
    }
}

/// The model of a token sequence, element by element.
pub open spec fn view_tokens(ts: Seq<Token>) -> Seq<SpecToken>
    decreases ts,
{
    if ts.len() == 0 {
        Seq::empty()
    } else {
        seq![view_token(ts[0])] + view_tokens(ts.subrange(1, ts.len() as int))
    }
}

pub broadcast proof fn lemma_view_tokens_len(ts: Seq<Token>)
    ensures
        #[trigger] view_tokens(ts).len() == ts.len(),
    decreases ts.len(),
{
    if ts.len() > 0 {
        lemma_view_tokens_len(ts.subrange(1, ts.len() as int));
    }
}

pub broadcast proof fn lemma_view_tokens_index(ts: Seq<Token>, i: int)
    requires
        0 <= i < ts.len(),
    ensures
        #[trigger] view_tokens(ts)[i] == view_token(ts[i]),
    decreases ts.len(),
{
    broadcast use lemma_view_tokens_len;

    if i > 0 {
        lemma_view_tokens_index(ts.subrange(1, ts.len() as int), i - 1);
    }
}

pub broadcast proof fn lemma_view_tokens_push(ts: Seq<Token>, t: Token)
    ensures
        #[trigger] view_tokens(ts.push(t)) == view_tokens(ts).push(view_token(t)),
    decreases ts.len(),
{
    broadcast use lemma_view_tokens_len, lemma_view_tokens_index;

    let l = view_tokens(ts.push(t));
    let r = view_tokens(ts).push(view_token(t));
    assert forall|i: int| 0 <= i < r.len() implies l[i] == r[i] by {
        lemma_view_tokens_index(ts.push(t), i);
        if i < ts.len() {
            assert(ts.push(t)[i] == ts[i]);
        } else {
            assert(ts.push(t)[i] == t);
        }
    }
    lemma_view_tokens_len(ts.push(t));
    assert(l =~= r);
}

pub proof fn lemma_view_tokens_subrange(ts: Seq<Token>, a: int, b: int)
    requires
        0 <= a <= b <= ts.len(),
    ensures
        view_tokens(ts.subrange(a, b)) == view_tokens(ts).subrange(a, b),
{
    broadcast use group_token_views;

    let l = view_tokens(ts.subrange(a, b));
    let r = view_tokens(ts).subrange(a, b);
    assert forall|i: int| 0 <= i < r.len() implies l[i] == r[i] by {
        lemma_view_tokens_index(ts.subrange(a, b), i);
        lemma_view_tokens_index(ts, a + i);
        assert(ts.subrange(a, b)[i] == ts[a + i]);
    }
    lemma_view_tokens_len(ts.subrange(a, b));
    assert(l =~= r);
}

/// Whether a token is the identifier spelled `w`.
pub open spec fn is_ident(t: SpecToken, w: Seq<char>) -> bool {
    match t {
        SpecToken::Ident(s) => s == w,
        _ => false,
    }
}

/// Whether a token is the fragment spelled `w`.
pub open spec fn is_frag(t: SpecToken, w: Seq<char>) -> bool {
    match t {
        SpecToken::Fragment(s) => s == w,
        _ => false,
    }
}

/// Decides `is_ident` on a concrete token.
pub fn is_ident_tok(t: &Token, w: &str) -> (r: bool)
    ensures
        r == is_ident(view_token(*t), w@),
{
    match t {
        Token::Ident(s) => {
            let ww: String = w.to_owned();
            *s == ww
        },
        _ => false,
    }
}

/// Decides `is_frag` on a concrete token.
pub fn is_frag_tok(t: &Token, w: &str) -> (r: bool)
    ensures
        r == is_frag(view_token(*t), w@),
{
    match t {
        Token::Fragment(s) => {
            let ww: String = w.to_owned();
            *s == ww
        },
        _ => false,
    }
}

/// Builds a fresh token sequence with the same model as the range
/// `[a, b)` of the given one.
pub fn dup_range(ts: &Vec<Token>, a: usize, b: usize) -> (r: Vec<Token>)
    requires
        a <= b <= ts.len(),
    ensures
        view_tokens(r@) == view_tokens(ts@.subrange(a as int, b as int)),
{
    broadcast use group_token_views;

    let mut v: Vec<Token> = Vec::new();
    let mut i: usize = a;
    while i < b
        invariant
            a <= i <= b <= ts.len(),
            view_tokens(v@) == view_tokens(ts@.subrange(a as int, i as int)),
        decreases b - i,
    {
        let x = dup_token(&ts[i]);
        let ghost pre = v@;
        v.push(x);
        proof {
            lemma_view_tokens_push(pre, x);
            lemma_view_tokens_push(ts@.subrange(a as int, i as int), ts@[i as int]);
            lemma_view_tokens_index(ts@, i as int);
            assert(ts@.subrange(a as int, i + 1) =~= ts@.subrange(a as int, i as int).push(
                ts@[i as int],
            ));
            assert(view_tokens(v@) =~= view_tokens(ts@.subrange(a as int, i + 1)));
        }
        i += 1;
    }
    v
}

/// The opening character of a delimiter.
pub open spec fn open_char(d: Delim) -> char {
    match d {
        Delim::Paren => '(',
        Delim::Brace => '{',
        Delim::Bracket => '[',
    }
}

/// The closing character of a delimiter.
pub open spec fn close_char(d: Delim) -> char {
    match d {
        Delim::Paren => ')',
        Delim::Brace => '}',
        Delim::Bracket => ']',
    }
}

/// The source text of a token: identifiers and fragments stand as
/// they are; a group is its delimiters around its elements, each
/// element followed by one space.
pub open spec fn spec_render(t: SpecToken) -> Seq<char>
    decreases t,
{
    match t {
        SpecToken::Ident(s) => s,
        SpecToken::Fragment(s) => s,
        SpecToken::Group(d, elems) => seq![open_char(d), ' '] + render_elems(elems) + seq![
            close_char(d),
        ],
    }
}

/// The source text of a group's elements, each followed by one space.
pub open spec fn render_elems(elems: Seq<SpecToken>) -> Seq<char>
    decreases elems,
{
    if elems.len() == 0 {
        Seq::empty()
    } else {
        spec_render(elems[0]) + seq![' '] + render_elems(elems.subrange(1, elems.len() as int))
    }
}

pub proof fn lemma_render_elems_push(elems: Seq<SpecToken>, t: SpecToken)
    ensures
        render_elems(elems.push(t)) == render_elems(elems) + spec_render(t) + seq![' '],
    decreases elems.len(),
{
    reveal_with_fuel(render_elems, 2);
    if elems.len() == 0 {
        assert(elems.push(t)[0] == t);
        assert(elems.push(t).subrange(1, 1) =~= Seq::<SpecToken>::empty());
        assert(render_elems(elems.push(t)) =~= render_elems(elems) + spec_render(t) + seq![' ']);
    } else {
        let rest = elems.subrange(1, elems.len() as int);
        assert(elems.push(t).subrange(1, elems.push(t).len() as int) =~= rest.push(t));
        lemma_render_elems_push(rest, t);
        assert(elems.push(t)[0] == elems[0]);
        assert(render_elems(elems.push(t)) == spec_render(elems[0]) + seq![' '] + render_elems(
            rest.push(t),
        ));
        assert(render_elems(elems.push(t)) =~= render_elems(elems) + spec_render(t) + seq![' ']);
    }
}

fn open_str(d: &Delim) -> (s: &'static str)
    ensures
        s@ == seq![open_char(*d), ' '],
{
    proof {
        reveal_strlit("( ");
        reveal_strlit("{ ");
        reveal_strlit("[ ");
    }
    let r = match d {
        Delim::Paren => "( ",
        Delim::Brace => "{ ",
        Delim::Bracket => "[ ",
    };
    proof {
        assert(r@ =~= seq![open_char(*d), ' ']);
    }
    r
}

fn close_str(d: &Delim) -> (s: &'static str)
    ensures
        s@ == seq![close_char(*d)],
{
    proof {
        reveal_strlit(")");
        reveal_strlit("}");
        reveal_strlit("]");
    }
    let r = match d {
        Delim::Paren => ")",
        Delim::Brace => "}",
        Delim::Bracket => "]",
    };
    proof {
        assert(r@ =~= seq![close_char(*d)]);
    }
    r
}

/// Renders a token back to source text, as `spec_render` states.
pub fn render_token(t: &Token) -> (r: String)
    ensures
        r@ == spec_render(view_token(*t)),
    decreases *t,
{
    broadcast use group_token_views;

    match t {
        Token::Ident(s) => s.clone(),
        Token::Fragment(s) => s.clone(),
        Token::Group(d, elems) => {
            let ghost all = view_tokens(elems@);
            let mut out: String = String::new();
            out.append(open_str(d));
            let mut i: usize = 0;
            while i < elems.len()
                invariant
                    i <= elems.len(),
                    *t == Token::Group(*d, *elems),
                    all == view_tokens(elems@),
                    all.len() == elems@.len(),
                    out@ == seq![open_char(*d), ' '] + render_elems(all.subrange(0, i as int)),
                decreases elems.len() - i,
            {
                proof {
                    assert(*t == Token::Group(*d, *elems));
                    assert(decreases_to!(*t => (*t)->Group_1));
                    assert(decreases_to!(*elems => (*elems)@[i as int]));
                }
                let piece = render_token(&elems[i]);
                out.append(piece.as_str());
                out.append(" ");
                proof {
                    reveal_strlit(" ");
                    assert(" "@ =~= seq![' ']);
                    lemma_view_tokens_index(elems@, i as int);
                    assert(piece@ == spec_render(all[i as int]));
                    assert(all.subrange(0, i + 1) =~= all.subrange(0, i as int).push(all[i as int]));
                    lemma_render_elems_push(all.subrange(0, i as int), all[i as int]);
                    assert(out@ =~= seq![open_char(*d), ' '] + render_elems(
                        all.subrange(0, i + 1),
                    ));
                }
                i += 1;
            }
            out.append(close_str(d));
            proof {
                assert(all.subrange(0, all.len() as int) =~= all);
                assert(out@ =~= spec_render(view_token(*t)));
            }
            out
        },
    }
}

/// Builds a fresh token with the same model as the given one.
pub fn dup_token(t: &Token) -> (r: Token)
    ensures
        view_token(r) == view_token(*t),
    decreases *t,
{
    broadcast use group_token_views;

    match t {
        Token::Ident(s) => Token::Ident(s.clone()),
        Token::Fragment(s) => Token::Fragment(s.clone()),
        Token::Group(d, elems) => {
            let mut v: Vec<Token> = Vec::new();
            let mut i: usize = 0;
            while i < elems.len()
                invariant
                    i <= elems.len(),
                    *t == Token::Group(*d, *elems),
                    view_tokens(v@) == view_tokens(elems@.subrange(0, i as int)),
                decreases elems.len() - i,
            {
                proof {
                    assert(*t == Token::Group(*d, *elems));
                    assert(decreases_to!(*t => (*t)->Group_1));
                    assert(decreases_to!(*elems => (*elems)@[i as int]));
                }
                let x = dup_token(&elems[i]);
                let ghost pre = v@;
                v.push(x);
                proof {
                    lemma_view_tokens_push(pre, x);
                    lemma_view_tokens_push(elems@.subrange(0, i as int), elems@[i as int]);
                    lemma_view_tokens_index(elems@, i as int);
                    assert(elems@.subrange(0, i + 1) =~= elems@.subrange(0, i as int).push(
                        elems@[i as int],
                    ));
                    assert(view_tokens(v@) =~= view_tokens(elems@.subrange(0, i + 1)));
                }
                i += 1;
            }
            proof {
                assert(elems@.subrange(0, elems@.len() as int) =~= elems@);
            }
            Token::Group(*d, v)
        },
    }
}

/// Builds a fresh token sequence with the same model as the given one.
pub fn dup_tokens(ts: &Vec<Token>) -> (r: Vec<Token>)
    ensures
        view_tokens(r@) == view_tokens(ts@),
{
    broadcast use group_token_views;

    let mut v: Vec<Token> = Vec::new();
    let mut i: usize = 0;
    while i < ts.len()
        invariant
            i <= ts.len(),
            view_tokens(v@) == view_tokens(ts@.subrange(0, i as int)),
        decreases ts.len() - i,
    {
        let x = dup_token(&ts[i]);
        let ghost pre = v@;
        v.push(x);
        proof {
            lemma_view_tokens_push(pre, x);
            lemma_view_tokens_push(ts@.subrange(0, i as int), ts@[i as int]);
            lemma_view_tokens_index(ts@, i as int);
            assert(ts@.subrange(0, i + 1) =~= ts@.subrange(0, i as int).push(ts@[i as int]));
            assert(view_tokens(v@) =~= view_tokens(ts@.subrange(0, i + 1)));
        }
        i += 1;
    }
    proof {
        assert(ts@.subrange(0, ts@.len() as int) =~= ts@);
    }
    v
}

/// Appends one token; the model grows by exactly that token.
pub fn push_tok(out: &mut Vec<Token>, t: Token)
    ensures
        view_tokens(final (out)@) == view_tokens(old(out)@).push(view_token(t)),
{
    let ghost pre = out@;
    out.push(t);
    proof {
        lemma_view_tokens_push(pre, t);
    }
}

/// Appends a fresh copy of every token of `ts`, in order.
pub fn extend_tokens(out: &mut Vec<Token>, ts: &Vec<Token>)
    ensures
        view_tokens(final (out)@) == view_tokens(old(out)@) + view_tokens(ts@),
{
    let ghost base = view_tokens(old(out)@);
    proof {
        assert(ts@.subrange(0, 0) =~= Seq::<Token>::empty());
        assert(base + view_tokens(ts@.subrange(0, 0)) =~= base);
    }
    let mut j: usize = 0;
    while j < ts.len()
        invariant
            j <= ts.len(),
            base == view_tokens(old(out)@),
            view_tokens(out@) == base + view_tokens(ts@.subrange(0, j as int)),
        decreases ts.len() - j,
    {
        let x = dup_token(&ts[j]);
        let ghost pre = out@;
        out.push(x);
        proof {
            lemma_view_tokens_push(pre, x);
            lemma_view_tokens_push(ts@.subrange(0, j as int), ts@[j as int]);
            lemma_view_tokens_index(ts@, j as int);
            assert(ts@.subrange(0, j + 1) =~= ts@.subrange(0, j as int).push(ts@[j as int]));
            assert(view_tokens(out@) =~= base + view_tokens(ts@.subrange(0, j + 1)));
        }
        j += 1;
    }
    proof {
        assert(ts@.subrange(0, ts@.len() as int) =~= ts@);
    }
}

/// An identifier token from source text.
pub fn ident_token(s: &str) -> (t: Token)
    ensures
        view_token(t) == SpecToken::Ident(s@),
{
    Token::Ident(s.to_owned())
}

/// A fragment token from source text.
pub fn fragment_token(s: &str) -> (t: Token)
    ensures
        view_token(t) == SpecToken::Fragment(s@),
{
    Token::Fragment(s.to_owned())
}

} // verus!
