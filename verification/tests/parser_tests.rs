use dot_parser::parser::parse;
use dot_parser::parser_port::match_port;
use dot_parser::tokenizer::{Delimiter, Keyword, Token};

#[test]
fn match_port_false() {
    let tokens = vec![Token::Delimiter(Delimiter::Colon)];
    let res = match_port(&tokens);
    assert!(res.is_none());

    let tokens = vec![
        Token::Delimiter(Delimiter::Colon),
    ];
    let res = match_port(&tokens);
    assert!(res.is_none());

    let tokens = vec![
        Token::Delimiter(Delimiter::Colon),
        Token::Identifier("n".to_string()),
        Token::Identifier("n".to_string()),
    ];
    let res = match_port(&tokens);
    assert!(res.is_none());

    let tokens = vec![
        Token::Delimiter(Delimiter::Colon),
        Token::Identifier("n".to_string()),
        Token::Delimiter(Delimiter::Colon),
        Token::Identifier("n".to_string()),
        Token::Identifier("n".to_string()),
    ];
    let res = match_port(&tokens);
    assert!(res.is_none());
}

#[test]
fn parser_success_simple_strict_mode() {
    let tokens = vec![
        Token::Keyword(Keyword::Strict),
        Token::Keyword(Keyword::Graph),
        Token::Identifier("G".to_string()),
        Token::Delimiter(Delimiter::OpenCurlyBrace),
        Token::Delimiter(Delimiter::ClosedCurlyBrace),
    ];
    let res = parse(&tokens);
    assert!(res.is_ok());
}

#[test]
fn parser_success_simple_no_strict_mode() {
    let tokens = vec![
        Token::Keyword(Keyword::Graph),
        Token::Identifier("G".to_string()),
        Token::Delimiter(Delimiter::OpenCurlyBrace),
        Token::Delimiter(Delimiter::ClosedCurlyBrace),
    ];
    let res = parse(&tokens);
    assert!(res.is_ok());
}

#[test]
fn parser_success_strict_mode_with_name() {
    let tokens = vec![
        Token::Keyword(Keyword::Strict),
        Token::Keyword(Keyword::Graph),
        Token::Identifier("G".to_string()),
        Token::Delimiter(Delimiter::OpenCurlyBrace),
        Token::Delimiter(Delimiter::ClosedCurlyBrace),
    ];
    let res = parse(&tokens);
    assert!(res.is_ok());
}

#[test]
fn parser_success_strict_mode_without_name() {
    let tokens = vec![
        Token::Keyword(Keyword::Strict),
        Token::Keyword(Keyword::Graph),
        Token::Delimiter(Delimiter::OpenCurlyBrace),
        Token::Delimiter(Delimiter::ClosedCurlyBrace),
    ];
    let res = parse(&tokens);
    assert!(res.is_ok());
}

#[test]
fn parser_success_no_strict_mode_wihtout_name() {
    let tokens = vec![
        Token::Keyword(Keyword::Graph),
        Token::Delimiter(Delimiter::OpenCurlyBrace),
        Token::Delimiter(Delimiter::ClosedCurlyBrace),
    ];
    let res = parse(&tokens);
    assert!(res.is_ok());
}

#[test]
fn parser_success_no_strict_mode_with_name() {
    let tokens = vec![
        Token::Keyword(Keyword::Graph),
        Token::Identifier("G".to_string()),
        Token::Delimiter(Delimiter::OpenCurlyBrace),
        Token::Delimiter(Delimiter::ClosedCurlyBrace),
    ];
    let res = parse(&tokens);
    assert!(res.is_ok());
}

#[test]
fn parser_fail() {
    let tokens = vec![];
    let res = parse(&tokens);
    assert!(res.is_err());
}

#[test]
fn parser_fail_with_less_tokens() {
    let tokens = vec![Token::Keyword(Keyword::Graph)];
    let res = parse(&tokens);
    assert!(res.is_err());
}

#[test]
fn parser_fail_with_wrong_start() {
    let tokens = vec![
        Token::Delimiter(Delimiter::OpenCurlyBrace),
        Token::Keyword(Keyword::Graph),
        Token::Identifier("G".to_string()),
        Token::Keyword(Keyword::Strict),
    ];
    let res = parse(&tokens);
    assert!(res.is_err());
}

#[test]
fn parser_fail_with_no_open_curly_brace() {
    let tokens = vec![
        Token::Keyword(Keyword::Graph),
        Token::Identifier("G".to_string()),
        Token::Keyword(Keyword::Strict),
        Token::Identifier("G".to_string()),
    ];
    let res = parse(&tokens);
    assert!(res.is_err());
}

#[test]
fn parser_fail_with_no_closed_curly_brace() {
    let tokens = vec![
        Token::Keyword(Keyword::Graph),
        Token::Identifier("G".to_string()),
        Token::Keyword(Keyword::Strict),
        Token::Delimiter(Delimiter::OpenCurlyBrace),
    ];
    let res = parse(&tokens);
    assert!(res.is_err());
}

#[test]
fn parser_fail_with_leftover_tokens() {
    // the statement span holds an `=` that no statement alternative accepts
    let tokens = vec![
        Token::Keyword(Keyword::Graph),
        Token::Delimiter(Delimiter::OpenCurlyBrace),
        Token::Delimiter(Delimiter::Equal),
        Token::Delimiter(Delimiter::ClosedCurlyBrace),
    ];
    let res = parse(&tokens);
    assert!(res.is_err());
    let err = res.unwrap_err();
    assert_eq!(err.token, Some(Token::Delimiter(Delimiter::Equal)));
}
