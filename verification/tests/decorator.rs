use deco::attr::DecoratorAttr;
use deco::token::{Delim, Token};
use deco::DecoError;

fn ident(s: &str) -> Token {
    Token::Ident(s.to_string())
}

fn frag(s: &str) -> Token {
    Token::Fragment(s.to_string())
}

#[test]
fn parse_attr() {
    let ts = vec![ident("logging")];
    assert!(matches!(
        DecoratorAttr::parse(&ts).unwrap(),
        DecoratorAttr::Fixed { .. }
    ));
}

#[test]
fn parse_attr_parametric_literal() {
    let ts = vec![
        ident("logging"),
        Token::Group(
            Delim::Paren,
            vec![frag("\"test.log\""), frag(","), frag("2")],
        ),
    ];
    match DecoratorAttr::parse(&ts).unwrap() {
        DecoratorAttr::Fixed { .. } => panic!("Failed to parse args"),
        DecoratorAttr::Parametric { args, .. } => {
            assert_eq!(args.len(), 2);
        }
    }
}

#[test]
fn parse_attr_parametric_variable() {
    let ts = vec![
        ident("logging"),
        Token::Group(
            Delim::Paren,
            vec![frag("\"test.log\""), frag(","), ident("some_variable")],
        ),
    ];
    match DecoratorAttr::parse(&ts).unwrap() {
        DecoratorAttr::Fixed { .. } => panic!("Failed to parse args"),
        DecoratorAttr::Parametric { args, .. } => {
            assert_eq!(args.len(), 2);
        }
    }
}

#[test]
fn parse_attr_parametric_expr() {
    let ts = vec![
        ident("logging"),
        Token::Group(
            Delim::Paren,
            vec![
                frag("\"test.log\""),
                frag(","),
                Token::Group(Delim::Paren, vec![frag("1"), frag("+"), frag("2")]),
            ],
        ),
    ];
    match DecoratorAttr::parse(&ts).unwrap() {
        DecoratorAttr::Fixed { .. } => panic!("Failed to parse args"),
        DecoratorAttr::Parametric { args, .. } => {
            assert_eq!(args.len(), 2);
        }
    }
}

#[test]
fn parse_attr_empty() {
    let ts: Vec<Token> = vec![];
    assert!(DecoratorAttr::parse(&ts).is_err());
}

#[test]
fn parse_attr_invalid() {
    // inverse order
    let ts = vec![
        Token::Group(
            Delim::Paren,
            vec![frag("\"test.log\""), frag(","), frag("2")],
        ),
        ident("logging"),
    ];
    assert!(DecoratorAttr::parse(&ts).is_err());
}

#[test]
fn bare_name_keeps_its_spelling() {
    let ts = vec![ident("logging")];
    match DecoratorAttr::parse(&ts).unwrap() {
        DecoratorAttr::Fixed { name } => assert_eq!(name, "logging"),
        DecoratorAttr::Parametric { .. } => panic!("unexpected arguments"),
    }
}

#[test]
fn parametric_args_keep_source_order() {
    let ts = vec![
        ident("logging"),
        Token::Group(Delim::Paren, vec![frag("1"), frag(","), frag("2")]),
    ];
    match DecoratorAttr::parse(&ts).unwrap() {
        DecoratorAttr::Fixed { .. } => panic!("Failed to parse args"),
        DecoratorAttr::Parametric { name, args } => {
            assert_eq!(name, "logging");
            assert_eq!(args, vec![frag("1"), frag("2")]);
        }
    }
}

#[test]
fn empty_group_collapses_to_fixed() {
    let ts = vec![ident("logging"), Token::Group(Delim::Paren, vec![])];
    assert!(matches!(
        DecoratorAttr::parse(&ts).unwrap(),
        DecoratorAttr::Fixed { .. }
    ));
}

#[test]
fn empty_input_reports_missing_name() {
    let ts: Vec<Token> = vec![];
    assert_eq!(DecoratorAttr::parse(&ts), Err(DecoError::NameNotFound));
}

#[test]
fn group_before_name_reports_invalid_sequence() {
    let ts = vec![Token::Group(Delim::Paren, vec![frag("2")]), ident("logging")];
    assert_eq!(
        DecoratorAttr::parse(&ts),
        Err(DecoError::InvalidTokenSequence)
    );
}

#[test]
fn stray_fragment_reports_invalid_sequence() {
    let ts = vec![frag("#"), ident("logging")];
    assert_eq!(
        DecoratorAttr::parse(&ts),
        Err(DecoError::InvalidTokenSequence)
    );
}

#[test]
fn ill_formed_argument_is_dropped() {
    // A lone `+` is no expression: only the two literals survive.
    let ts = vec![
        ident("logging"),
        Token::Group(Delim::Paren, vec![frag("1"), frag("+"), frag("+"), frag("2")]),
    ];
    match DecoratorAttr::parse(&ts).unwrap() {
        DecoratorAttr::Fixed { .. } => panic!("Failed to parse args"),
        DecoratorAttr::Parametric { args, .. } => {
            assert_eq!(args, vec![frag("1"), frag("2")]);
        }
    }
}

#[test]
fn error_messages_are_descriptive() {
    assert_eq!(DecoError::NameNotFound.message(), "decorator name not found");
    assert_eq!(
        DecoError::InvalidTokenSequence.message(),
        "invalid token sequence"
    );
    assert_eq!(DecoError::NotAFunction.message(), "input is not a function");
    assert_eq!(
        DecoError::UnsupportedParamPattern.message(),
        "unsupported parameter pattern"
    );
}
