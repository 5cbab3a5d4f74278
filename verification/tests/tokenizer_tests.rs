use dot_parser::tokenizer::{chars_to_token, is_proper_identifier, tokenize, Delimiter, Keyword, Token};

#[test]
fn it_works() {
    let result = dot_parser::add(2, 2);
    assert_eq!(result, 4);
}

#[test]
fn test_is_proper_identifier_alphabetic_ids() {
    // Valid alphabetic IDs
    assert!(is_proper_identifier("hello_world", 0, 0).is_ok());
    assert!(is_proper_identifier("_underscore", 0, 0).is_ok());
    assert!(is_proper_identifier("validID123", 0, 0).is_ok());
    assert!(is_proper_identifier("ü123", 0, 0).is_ok()); // Extended ASCII start, valid

    // Invalid alphabetic IDs (start with a digit)
    assert!(is_proper_identifier("123abc", 0, 0).is_err());
    assert!(is_proper_identifier("1underscore", 0, 0).is_err());
}

#[test]
fn test_is_proper_identifier_numeral_ids() {
    // Valid numerals
    assert!(is_proper_identifier("123", 0, 0).is_ok());
    assert!(is_proper_identifier("-123", 0, 0).is_ok());
    assert!(is_proper_identifier(".5", 0, 0).is_ok());
    assert!(is_proper_identifier("42.42", 0, 0).is_ok());
    assert!(is_proper_identifier("-0.12345", 0, 0).is_ok());

    // Invalid numerals (malformed)
    assert!(is_proper_identifier("123abc", 0, 0).is_err()); // Starts like a number but includes non-numeral characters
    assert!(is_proper_identifier("--123", 0, 0).is_err()); // Multiple negative signs
    assert!(is_proper_identifier("-.5.", 0, 0).is_err()); // Extra decimal point
}

#[test]
fn test_is_proper_identifier_quoted_string_ids() {
    // Valid quoted strings
    assert!(is_proper_identifier("\"quoted\"", 0, 0).is_ok());
    assert!(is_proper_identifier("no_quotes", 0, 0).is_ok());
    assert!(is_proper_identifier("\"\"", 0, 0).is_err()); // Empty quoted string
    assert!(is_proper_identifier("\"unmatched quote", 0, 0).is_err());
    assert!(is_proper_identifier("\"missing end escape\\", 0, 0).is_err());
}

#[test]
fn test_is_proper_identifier_edge_cases() {
    // Empty string should be invalid
    assert!(is_proper_identifier("", 0, 0).is_err());

    // Single characters - valid
    assert!(is_proper_identifier("5", 0, 0).is_ok());
    assert!(is_proper_identifier("a", 0, 0).is_ok());
    assert!(is_proper_identifier("\"a\"", 0, 0).is_ok());

    // others
    assert!(is_proper_identifier("_", 0, 0).is_err());
    assert!(is_proper_identifier("\"", 0, 0).is_err()); // Unmatched quote
}

#[test]
fn test_chars_to_case_insensitive_token_keywords() {
    // Keywords should be identified correctly, ignoring case
    let keywords = [
        ("graph", Keyword::Graph),
        ("NODE", Keyword::Node),
        ("EdGE", Keyword::Edge),
        ("digraph", Keyword::Digraph),
        ("SUBGRAPH", Keyword::SubGraph),
    ];
    for (keyword, expected_token) in keywords.iter() {
        let keyword_tkn = chars_to_token(keyword.chars().collect(), 0, 0);
        match keyword_tkn {
            Result::Ok(Some(tkn)) => {
                assert_eq!(
                    tkn,
                    Token::Keyword(expected_token.clone()),
                    "Failed on keyword: {}",
                    keyword
                );
            }
            _ => {
                panic!(
                    "Expected Ok({:?}), Recived: {:?}",
                    expected_token,
                    keyword_tkn.unwrap()
                );
            }
        }
    }
}

#[test]
fn test_chars_to_token_identifiers() {
    let keywords = ["my_id", "_abc", "value_1", "value2", "Ü123df"];
    for identifier in keywords.iter() {
        let keyword_tkn = chars_to_token(identifier.chars().collect(), 0, 0);
        let expected = Token::Identifier(identifier.to_string());
        match keyword_tkn {
            Result::Ok(Some(tkn)) => {
                assert_eq!(
                    tkn, expected,
                    "Expected: {:?} ... Recived: {:?}",
                    identifier, tkn
                );
            }
            _ => {
                panic!(
                    "Expected Ok({:?}), Recived: {:?}",
                    expected,
                    keyword_tkn.unwrap()
                );
            }
        }
    }
}

#[test]
fn test_chars_to_token_quoted_identifiers() {
    assert_eq!(
        chars_to_token("\"quo ted\"".chars().collect(), 0, 0)
            .unwrap()
            .unwrap(),
        Token::Identifier("quo ted".to_string())
    );
    assert_eq!(
        chars_to_token(vec!['"', 'q', '\\', '"', 'u', '"'], 0, 0)
            .unwrap()
            .unwrap(),
        Token::Identifier("q\\\"u".to_string())
    );
}

#[test]
fn test_chars_to_token_invalid_identifiers() {
    // Invalid identifiers should return an error
    assert_eq!(
        chars_to_token(vec!['1', '2', '3'], 0, 0).unwrap().unwrap(),
        Token::Identifier("123".to_string())
    ); // Starts with a digit
    assert!(chars_to_token(vec!['!', 'i', 'd'], 0, 0).is_err()); // Contains invalid character
    assert!(chars_to_token(vec!['a', '!', 'b'], 0, 0).is_err()); // Contains invalid character
}

#[test]
fn test_tokenize_basic_1() {
    let code = "graph { a -- b; b -- c; }".to_string();
    let tokens = tokenize(code).unwrap();
    let expected = vec![
        Token::Keyword(Keyword::Graph),
        Token::Delimiter(Delimiter::OpenCurlyBrace),
        Token::Identifier("a".to_string()),
        Token::Delimiter(Delimiter::UndirectedEdge),
        Token::Identifier("b".to_string()),
        Token::Delimiter(Delimiter::Semicolon),
        Token::Identifier("b".to_string()),
        Token::Delimiter(Delimiter::UndirectedEdge),
        Token::Identifier("c".to_string()),
        Token::Delimiter(Delimiter::Semicolon),
        Token::Delimiter(Delimiter::ClosedCurlyBrace),
    ];
    assert_eq!(tokens, expected);
}

#[test]
fn test_tokenize_basic_2() {
    let code = "digraph { a -> b; b -> c; }".to_string();
    let tokens = tokenize(code).unwrap();
    let expected = vec![
        Token::Keyword(Keyword::Digraph),
        Token::Delimiter(Delimiter::OpenCurlyBrace),
        Token::Identifier("a".to_string()),
        Token::Delimiter(Delimiter::DirectedEdge),
        Token::Identifier("b".to_string()),
        Token::Delimiter(Delimiter::Semicolon),
        Token::Identifier("b".to_string()),
        Token::Delimiter(Delimiter::DirectedEdge),
        Token::Identifier("c".to_string()),
        Token::Delimiter(Delimiter::Semicolon),
        Token::Delimiter(Delimiter::ClosedCurlyBrace),
    ];
    assert_eq!(tokens, expected);
}

#[test]
fn test_tokenize_with_edge_attributes() {
    let code = "graph G {
            A -- B [label=\"edge label\"];
            B [color=blue];
            C [shape=circle];
        }"
    .to_string();
    let tokens = tokenize(code).unwrap();
    let expected = vec![
        Token::Keyword(Keyword::Graph),
        Token::Identifier("G".to_string()),
        Token::Delimiter(Delimiter::OpenCurlyBrace),
        Token::Identifier("A".to_string()),
        Token::Delimiter(Delimiter::UndirectedEdge),
        Token::Identifier("B".to_string()),
        Token::Delimiter(Delimiter::OpenSquareBrace),
        Token::Identifier("label".to_string()),
        Token::Delimiter(Delimiter::Equal),
        Token::Identifier("edge label".to_string()),
        Token::Delimiter(Delimiter::ClosedSquareBrace),
        Token::Delimiter(Delimiter::Semicolon),
        Token::Identifier("B".to_string()),
        Token::Delimiter(Delimiter::OpenSquareBrace),
        Token::Identifier("color".to_string()),
        Token::Delimiter(Delimiter::Equal),
        Token::Identifier("blue".to_string()),
        Token::Delimiter(Delimiter::ClosedSquareBrace),
        Token::Delimiter(Delimiter::Semicolon),
        Token::Identifier("C".to_string()),
        Token::Delimiter(Delimiter::OpenSquareBrace),
        Token::Identifier("shape".to_string()),
        Token::Delimiter(Delimiter::Equal),
        Token::Identifier("circle".to_string()),
        Token::Delimiter(Delimiter::ClosedSquareBrace),
        Token::Delimiter(Delimiter::Semicolon),
        Token::Delimiter(Delimiter::ClosedCurlyBrace),
    ];
    assert_eq!(tokens, expected);
}

#[test]
fn test_tokenize_with_node_attributes() {
    let code = "graph G {
            A [label=\"node label\"];
            B [color=blue];
            C [shape=circle];
        }"
    .to_string();
    let tokens = tokenize(code).unwrap();
    let expected = vec![
        Token::Keyword(Keyword::Graph),
        Token::Identifier("G".to_string()),
        Token::Delimiter(Delimiter::OpenCurlyBrace),
        Token::Identifier("A".to_string()),
        Token::Delimiter(Delimiter::OpenSquareBrace),
        Token::Identifier("label".to_string()),
        Token::Delimiter(Delimiter::Equal),
        Token::Identifier("node label".to_string()),
        Token::Delimiter(Delimiter::ClosedSquareBrace),
        Token::Delimiter(Delimiter::Semicolon),
        Token::Identifier("B".to_string()),
        Token::Delimiter(Delimiter::OpenSquareBrace),
        Token::Identifier("color".to_string()),
        Token::Delimiter(Delimiter::Equal),
        Token::Identifier("blue".to_string()),
        Token::Delimiter(Delimiter::ClosedSquareBrace),
        Token::Delimiter(Delimiter::Semicolon),
        Token::Identifier("C".to_string()),
        Token::Delimiter(Delimiter::OpenSquareBrace),
        Token::Identifier("shape".to_string()),
        Token::Delimiter(Delimiter::Equal),
        Token::Identifier("circle".to_string()),
        Token::Delimiter(Delimiter::ClosedSquareBrace),
        Token::Delimiter(Delimiter::Semicolon),
        Token::Delimiter(Delimiter::ClosedCurlyBrace),
    ];
    assert_eq!(tokens, expected);
}

#[test]
fn test_tokenize_with_escaped_quotes() {
    let code = "graph G {
            A [label=\"ain\\\"t it\"];
            B [label=\"node label\"];
        }"
    .to_string();
    let tokens = tokenize(code).unwrap();
    let expected = vec![
        Token::Keyword(Keyword::Graph),
        Token::Identifier("G".to_string()),
        Token::Delimiter(Delimiter::OpenCurlyBrace),
        Token::Identifier("A".to_string()),
        Token::Delimiter(Delimiter::OpenSquareBrace),
        Token::Identifier("label".to_string()),
        Token::Delimiter(Delimiter::Equal),
        Token::Identifier("ain\\\"t it".to_string()),
        Token::Delimiter(Delimiter::ClosedSquareBrace),
        Token::Delimiter(Delimiter::Semicolon),
        Token::Identifier("B".to_string()),
        Token::Delimiter(Delimiter::OpenSquareBrace),
        Token::Identifier("label".to_string()),
        Token::Delimiter(Delimiter::Equal),
        Token::Identifier("node label".to_string()),
        Token::Delimiter(Delimiter::ClosedSquareBrace),
        Token::Delimiter(Delimiter::Semicolon),
        Token::Delimiter(Delimiter::ClosedCurlyBrace),
    ];
    assert_eq!(tokens, expected);
}

#[test]
fn keyword_recognition_is_case_insensitive() {
    for spelling in ["GRAPH", "Graph", "graph", "gRaPh"] {
        let tokens = tokenize(spelling.to_string()).unwrap();
        assert_eq!(tokens, vec![Token::Keyword(Keyword::Graph)]);
    }
}

#[test]
fn edge_operator_lexing() {
    let tokens = tokenize("a->b".to_string()).unwrap();
    assert_eq!(
        tokens,
        vec![
            Token::Identifier("a".to_string()),
            Token::Delimiter(Delimiter::DirectedEdge),
            Token::Identifier("b".to_string()),
        ]
    );
}

#[test]
fn trailing_dash_is_fatal() {
    let err = tokenize("a-".to_string()).unwrap_err();
    assert_eq!(err.line, 0);
    let err = tokenize("a-x".to_string()).unwrap_err();
    assert_eq!(err.token, "x".to_string());
}

#[test]
fn unterminated_quote_is_fatal() {
    let err = tokenize("\"oops".to_string()).unwrap_err();
    assert_eq!(err.line, 0);
    assert_eq!(err.col, 5);
}

#[test]
fn empty_quotes_are_rejected() {
    assert!(tokenize("a \"\" b".to_string()).is_err());
}

#[test]
fn invalid_single_character_is_rejected() {
    let err = tokenize("!".to_string()).unwrap_err();
    assert_eq!(err.token, "!".to_string());
}

#[test]
fn newline_flush_reports_position_after_the_newline() {
    // the invalid lexeme is flushed by the newline, after the scanner has
    // already advanced to the next line
    let err = tokenize("ab!\ncd".to_string()).unwrap_err();
    assert_eq!(err.token, "ab!".to_string());
    assert_eq!(err.line, 1);
    assert_eq!(err.col, 0);
}
