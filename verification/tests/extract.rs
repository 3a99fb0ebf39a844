use deco::func::Function;
use deco::token::{Delim, Token};
use deco::DecoError;

fn ident(s: &str) -> Token {
    Token::Ident(s.to_string())
}

fn frag(s: &str) -> Token {
    Token::Fragment(s.to_string())
}

/// `fn diff ( a : i32 , b : i32 ) -> i32 { a - b }` as tokens.
fn diff_item() -> Vec<Token> {
    vec![
        ident("fn"),
        ident("diff"),
        Token::Group(
            Delim::Paren,
            vec![
                ident("a"),
                frag(":"),
                ident("i32"),
                frag(","),
                ident("b"),
                frag(":"),
                ident("i32"),
            ],
        ),
        frag("-"),
        frag(">"),
        ident("i32"),
        Token::Group(Delim::Brace, vec![ident("a"), frag("-"), ident("b")]),
    ]
}

#[test]
fn extract_simple_function() {
    let f = Function::parse(&diff_item()).unwrap();
    assert_eq!(f.vis, Vec::<Token>::new());
    assert_eq!(f.ident, "diff");
    assert_eq!(f.params.len(), 2);
    assert_eq!(f.params[0].name, "a");
    assert_eq!(f.params[0].ty, vec![ident("i32")]);
    assert_eq!(f.params[1].name, "b");
    assert_eq!(f.params[1].ty, vec![ident("i32")]);
    assert_eq!(f.output, Some(vec![ident("i32")]));
    assert_eq!(f.block, vec![ident("a"), frag("-"), ident("b")]);
}

#[test]
fn extract_keeps_parameter_order() {
    let f = Function::parse(&diff_item()).unwrap();
    assert_eq!(f.input_values(), vec!["a".to_string(), "b".to_string()]);
}

#[test]
fn extract_public_visibility() {
    let ts = vec![
        ident("pub"),
        ident("fn"),
        ident("answer"),
        Token::Group(Delim::Paren, vec![]),
        frag("-"),
        frag(">"),
        ident("u32"),
        Token::Group(Delim::Brace, vec![frag("42")]),
    ];
    let f = Function::parse(&ts).unwrap();
    assert_eq!(f.vis, vec![ident("pub")]);
    assert_eq!(f.ident, "answer");
    assert_eq!(f.params.len(), 0);
    assert_eq!(f.input_values(), Vec::<String>::new());
}

#[test]
fn extract_without_return_type() {
    let ts = vec![
        ident("fn"),
        ident("ping"),
        Token::Group(Delim::Paren, vec![]),
        Token::Group(Delim::Brace, vec![]),
    ];
    let f = Function::parse(&ts).unwrap();
    assert_eq!(f.output, None);
}

#[test]
fn extract_rejects_non_function() {
    let ts = vec![
        ident("struct"),
        ident("S"),
        Token::Group(Delim::Brace, vec![]),
    ];
    assert_eq!(Function::parse(&ts), Err(DecoError::NotAFunction));
}

#[test]
fn extract_rejects_destructured_parameter() {
    // fn f ( ( a , b ) : ( i32 , i32 ) ) { }
    let ts = vec![
        ident("fn"),
        ident("f"),
        Token::Group(
            Delim::Paren,
            vec![
                Token::Group(Delim::Paren, vec![ident("a"), frag(","), ident("b")]),
                frag(":"),
                Token::Group(Delim::Paren, vec![ident("i32"), frag(","), ident("i32")]),
            ],
        ),
        Token::Group(Delim::Brace, vec![]),
    ];
    assert_eq!(
        Function::parse(&ts),
        Err(DecoError::UnsupportedParamPattern)
    );
}

#[test]
fn extract_rejects_placeholder_parameter() {
    // fn f ( _ : i32 ) { }
    let ts = vec![
        ident("fn"),
        ident("f"),
        Token::Group(Delim::Paren, vec![ident("_"), frag(":"), ident("i32")]),
        Token::Group(Delim::Brace, vec![]),
    ];
    assert_eq!(
        Function::parse(&ts),
        Err(DecoError::UnsupportedParamPattern)
    );
}

#[test]
fn extract_rejects_receiver() {
    // fn m ( & self ) { }
    let ts = vec![
        ident("fn"),
        ident("m"),
        Token::Group(Delim::Paren, vec![frag("&"), ident("self")]),
        Token::Group(Delim::Brace, vec![]),
    ];
    assert_eq!(Function::parse(&ts), Err(DecoError::NotAFunction));
}
