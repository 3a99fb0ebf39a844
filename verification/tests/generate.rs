use deco::deco;
use deco::token::{Delim, Token};
use deco::DecoError;

fn ident(s: &str) -> Token {
    Token::Ident(s.to_string())
}

fn frag(s: &str) -> Token {
    Token::Fragment(s.to_string())
}

/// `fn diff ( a : i32 , b : i32 ) -> i32 { a - b }` as tokens.
fn diff_item() -> Vec<Token> {
    vec![
        ident("fn"),
        ident("diff"),
        Token::Group(
            Delim::Paren,
            vec![
                ident("a"),
                frag(":"),
                ident("i32"),
                frag(","),
                ident("b"),
                frag(":"),
                ident("i32"),
            ],
        ),
        frag("-"),
        frag(">"),
        ident("i32"),
        Token::Group(Delim::Brace, vec![ident("a"), frag("-"), ident("b")]),
    ]
}

/// The re-emitted parameter list: `a : i32 , b : i32 ,`.
fn rebuilt_params() -> Vec<Token> {
    vec![
        ident("a"),
        frag(":"),
        ident("i32"),
        frag(","),
        ident("b"),
        frag(":"),
        ident("i32"),
        frag(","),
    ]
}

/// The forwarding arguments: `a , b ,` — declaration order.
fn forwarded_args() -> Vec<Token> {
    vec![ident("a"), frag(","), ident("b"), frag(",")]
}

/// The inner function: `fn deco_internal ( params ) -> i32 { a - b }`.
fn inner_fn() -> Vec<Token> {
    vec![
        ident("fn"),
        ident("deco_internal"),
        Token::Group(Delim::Paren, rebuilt_params()),
        frag("-"),
        frag(">"),
        ident("i32"),
        Token::Group(Delim::Brace, vec![ident("a"), frag("-"), ident("b")]),
    ]
}

#[test]
fn generate_fixed_decorator() {
    let attr = vec![ident("logging")];
    let out = deco(&attr, &diff_item()).unwrap();

    let mut body = vec![
        ident("let"),
        ident("f"),
        frag("="),
        ident("logging"),
        Token::Group(Delim::Paren, vec![ident("deco_internal")]),
        frag(";"),
        ident("return"),
        ident("f"),
        Token::Group(Delim::Paren, forwarded_args()),
        frag(";"),
    ];
    body.extend(inner_fn());

    let expected = vec![
        ident("fn"),
        ident("diff"),
        Token::Group(Delim::Paren, rebuilt_params()),
        frag("-"),
        frag(">"),
        ident("i32"),
        Token::Group(Delim::Brace, body),
    ];
    assert_eq!(out, expected);
}

#[test]
fn generate_parametric_decorator() {
    // logging ( "test.log" , 2 )
    let attr = vec![
        ident("logging"),
        Token::Group(
            Delim::Paren,
            vec![frag("\"test.log\""), frag(","), frag("2")],
        ),
    ];
    let out = deco(&attr, &diff_item()).unwrap();

    let mut body = vec![
        ident("let"),
        ident("deco"),
        frag("="),
        ident("logging"),
        // the factory call: both arguments, left to right, once each
        Token::Group(
            Delim::Paren,
            vec![frag("\"test.log\""), frag(","), frag("2"), frag(",")],
        ),
        frag(";"),
        ident("let"),
        ident("f"),
        frag("="),
        ident("deco"),
        Token::Group(Delim::Paren, vec![ident("deco_internal")]),
        frag(";"),
        ident("return"),
        ident("f"),
        Token::Group(Delim::Paren, forwarded_args()),
        frag(";"),
    ];
    body.extend(inner_fn());

    let expected = vec![
        ident("fn"),
        ident("diff"),
        Token::Group(Delim::Paren, rebuilt_params()),
        frag("-"),
        frag(">"),
        ident("i32"),
        Token::Group(Delim::Brace, body),
    ];
    assert_eq!(out, expected);
}

#[test]
fn generate_keeps_visibility() {
    let attr = vec![ident("logging")];
    let item = vec![
        ident("pub"),
        ident("fn"),
        ident("ping"),
        Token::Group(Delim::Paren, vec![]),
        Token::Group(Delim::Brace, vec![]),
    ];
    let out = deco(&attr, &item).unwrap();
    assert_eq!(out[0], ident("pub"));
    assert_eq!(out[1], ident("fn"));
    assert_eq!(out[2], ident("ping"));
}

#[test]
fn entry_propagates_attr_errors() {
    let empty: Vec<Token> = vec![];
    assert_eq!(deco(&empty, &diff_item()), Err(DecoError::NameNotFound));
}

#[test]
fn entry_propagates_item_errors() {
    let attr = vec![ident("logging")];
    let item = vec![
        ident("struct"),
        ident("S"),
        Token::Group(Delim::Brace, vec![]),
    ];
    assert_eq!(deco(&attr, &item), Err(DecoError::NotAFunction));
}
