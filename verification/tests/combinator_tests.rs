use dot_parser::ast::{AList, AttrList, AttrStmt, AttrStmtKind, Attribute, Compass, NodeId, Port};
use dot_parser::combinator::{ParseBufferItem, ParseResult, Parser};
use dot_parser::tokenizer::{Delimiter, Keyword, Token};

#[test]
fn test_parse_compass() {
    let input = vec![ParseBufferItem::Token(Token::Identifier("n".to_string()))];
    let expected = Compass::N;
    let result = Compass::N.parse(&input);
    assert_eq!(
        result,
        Some(ParseResult {
            result: expected,
            remaining: vec![]
        })
    );
}

#[test]
fn test_parse_compass_with_remaining() {
    let input = vec![
        ParseBufferItem::Token(Token::Identifier("n".to_string())),
        ParseBufferItem::Token(Token::Identifier("ne".to_string())),
    ];
    let expected = Compass::N;
    let result = Compass::N.parse(&input);
    assert_eq!(
        result,
        Some(ParseResult {
            result: expected,
            remaining: vec![ParseBufferItem::Token(Token::Identifier("ne".to_string()))]
        })
    );
}

#[test]
fn test_parse_compass_fail() {
    let input = vec![ParseBufferItem::Token(Token::Identifier(
        "hello".to_string(),
    ))];
    let result = Compass::N.parse(&input);
    assert_eq!(result, None);
}

#[test]
fn test_parse_port_has_priority_over_id() {
    let input = vec![
        ParseBufferItem::Token(Token::Delimiter(Delimiter::Colon)),
        ParseBufferItem::Token(Token::Identifier("n".to_string())),
    ];
    let expected = Port {
        id: None,
        compass: Some(Compass::N),
    };
    let result = Port {
        id: None,
        compass: None,
    }
    .parse(&input);
    assert_eq!(
        result,
        Some(ParseResult {
            result: expected,
            remaining: vec![]
        })
    );
}

#[test]
fn test_parse_port_returns_remainig() {
    let input = vec![
        ParseBufferItem::Token(Token::Delimiter(Delimiter::Colon)),
        ParseBufferItem::Token(Token::Identifier("n".to_string())),
        ParseBufferItem::Token(Token::Identifier("port".to_string())),
        ParseBufferItem::Token(Token::Delimiter(Delimiter::Colon)),
    ];
    let expected = Port {
        id: None,
        compass: Some(Compass::N),
    };
    let result = Port {
        id: None,
        compass: None,
    }
    .parse(&input);
    assert_eq!(
        result,
        Some(ParseResult {
            result: expected,
            remaining: vec![
                ParseBufferItem::Token(Token::Identifier("port".to_string())),
                ParseBufferItem::Token(Token::Delimiter(Delimiter::Colon))
            ]
        })
    );
}

#[test]
fn test_parse_port_with_id() {
    let input = vec![
        ParseBufferItem::Token(Token::Delimiter(Delimiter::Colon)),
        ParseBufferItem::Token(Token::Identifier("val".to_string())),
        ParseBufferItem::Token(Token::Delimiter(Delimiter::OpenSquareBrace)),
        ParseBufferItem::Token(Token::Identifier("port".to_string())),
    ];
    let expected = Port {
        id: Some("val".to_string()),
        compass: None,
    };
    let result = Port {
        id: None,
        compass: None,
    }
    .parse(&input);
    assert_eq!(
        result,
        Some(ParseResult {
            result: expected,
            remaining: vec![
                ParseBufferItem::Token(Token::Delimiter(Delimiter::OpenSquareBrace)),
                ParseBufferItem::Token(Token::Identifier("port".to_string())),
            ]
        })
    );
}

#[test]
fn test_parse_port_with_id_and_compass() {
    let input = vec![
        ParseBufferItem::Token(Token::Delimiter(Delimiter::Colon)),
        ParseBufferItem::Token(Token::Identifier("port".to_string())),
        ParseBufferItem::Token(Token::Delimiter(Delimiter::Colon)),
        ParseBufferItem::Token(Token::Identifier("w".to_string())),
        ParseBufferItem::Token(Token::Delimiter(Delimiter::OpenSquareBrace)),
        ParseBufferItem::Token(Token::Identifier("port".to_string())),
    ];
    let expected = Port {
        id: Some("port".to_string()),
        compass: Some(Compass::W),
    };
    let result = Port {
        id: None,
        compass: None,
    }
    .parse(&input);
    assert_eq!(
        result,
        Some(ParseResult {
            result: expected,
            remaining: vec![
                ParseBufferItem::Token(Token::Delimiter(Delimiter::OpenSquareBrace)),
                ParseBufferItem::Token(Token::Identifier("port".to_string()))
            ]
        })
    );
}

#[test]
fn test_parse_port_fail() {
    let input = vec![ParseBufferItem::Token(Token::Identifier(
        "hello".to_string(),
    ))];
    let result = Port {
        id: None,
        compass: None,
    }
    .parse(&input);
    assert_eq!(result, None);
}

#[test]
fn test_parse_node_id() {
    let input = vec![
        ParseBufferItem::Token(Token::Identifier("node1".to_string())),
        ParseBufferItem::Token(Token::Delimiter(Delimiter::Colon)),
        ParseBufferItem::Token(Token::Identifier("port1".to_string())),
    ];
    let expected = NodeId {
        id: "node1".to_string(),
        port: Some(Port {
            id: Some("port1".to_string()),
            compass: None,
        }),
    };
    let result = NodeId::default().parse(&input);
    assert_eq!(
        result,
        Some(ParseResult {
            result: expected,
            remaining: vec![]
        })
    );
}

#[test]
fn test_parse_node_id_without_port() {
    let input = vec![ParseBufferItem::Token(Token::Identifier("node1".to_string()))];
    let expected = NodeId {
        id: "node1".to_string(),
        port: None,
    };
    let result = NodeId::default().parse(&input);
    assert_eq!(
        result,
        Some(ParseResult {
            result: expected,
            remaining: vec![]
        })
    );
}

#[test]
fn test_parse_node_id_with_remaining() {
    let input = vec![
        ParseBufferItem::Token(Token::Identifier("node1".to_string())),
        ParseBufferItem::Token(Token::Delimiter(Delimiter::Colon)),
        ParseBufferItem::Token(Token::Identifier("port1".to_string())),
        ParseBufferItem::Token(Token::Delimiter(Delimiter::Semicolon)),
    ];
    let expected = NodeId {
        id: "node1".to_string(),
        port: Some(Port {
            id: Some("port1".to_string()),
            compass: None,
        }),
    };
    let result = NodeId::default().parse(&input);
    assert_eq!(
        result,
        Some(ParseResult {
            result: expected,
            remaining: vec![ParseBufferItem::Token(Token::Delimiter(Delimiter::Semicolon))]
        })
    );
}

#[test]
fn test_parse_attribute() {
    let input = vec![
        ParseBufferItem::Token(Token::Identifier("label".to_string())),
        ParseBufferItem::Token(Token::Delimiter(Delimiter::Equal)),
        ParseBufferItem::Token(Token::Identifier("hello".to_string())),
    ];
    let expected = Attribute::new("label".to_string(), "hello".to_string());
    let result = Attribute::new("".to_string(), "".to_string()).parse(&input);
    assert_eq!(result, Some(ParseResult { result: expected, remaining: vec![] }));
}

#[test]
fn test_parse_attribute_with_remaining() {
    let input = vec![
        ParseBufferItem::Token(Token::Identifier("label".to_string())),
        ParseBufferItem::Token(Token::Delimiter(Delimiter::Equal)),
        ParseBufferItem::Token(Token::Identifier("hello".to_string())),
        ParseBufferItem::Token(Token::Delimiter(Delimiter::Semicolon)),
    ];
    let expected = Attribute::new("label".to_string(), "hello".to_string());
    let result = Attribute::new("".to_string(), "".to_string()).parse(&input);
    assert_eq!(result, Some(ParseResult { result: expected, remaining: vec![ParseBufferItem::Token(Token::Delimiter(Delimiter::Semicolon))] }));
}

#[test]
fn test_parse_attribute_fail() {
    let input = vec![
        ParseBufferItem::Token(Token::Identifier("label".to_string())),
        ParseBufferItem::Token(Token::Delimiter(Delimiter::Equal)),
    ];
    let result = Attribute::new("".to_string(), "".to_string()).parse(&input);
    assert_eq!(result, None);
}

#[test]
fn test_parse_a_list() {
    let input = vec![
        ParseBufferItem::Token(Token::Identifier("node1".to_string())),
        ParseBufferItem::Token(Token::Delimiter(Delimiter::Equal)),
        ParseBufferItem::Token(Token::Identifier("node2".to_string())),
        ParseBufferItem::Token(Token::Delimiter(Delimiter::Semicolon)),
        ParseBufferItem::Token(Token::Identifier("node3".to_string())),
        ParseBufferItem::Token(Token::Delimiter(Delimiter::Equal)),
        ParseBufferItem::Token(Token::Identifier("node4".to_string())),
    ];
    let expected = AList {
        items: vec![
            Attribute {
                lhs: "node1".to_string(),
                rhs: "node2".to_string(),
            },
            Attribute {
                lhs: "node3".to_string(),
                rhs: "node4".to_string(),
            },
        ],
    };
    let result = AList::default().parse(&input);
    assert_eq!(
        result,
        Some(ParseResult {
            result: expected,
            remaining: vec![]
        })
    );
}

#[test]
fn test_parse_a_list_with_remaining() {
    let input = vec![
        ParseBufferItem::Token(Token::Identifier("node1".to_string())),
        ParseBufferItem::Token(Token::Delimiter(Delimiter::Equal)),
        ParseBufferItem::Token(Token::Identifier("node2".to_string())),
        ParseBufferItem::Token(Token::Delimiter(Delimiter::Semicolon)),
        ParseBufferItem::Token(Token::Identifier("node3".to_string())),
        ParseBufferItem::Token(Token::Delimiter(Delimiter::Equal)),
        ParseBufferItem::Token(Token::Identifier("node4".to_string())),
        ParseBufferItem::Token(Token::Delimiter(Delimiter::Semicolon)),
        ParseBufferItem::Token(Token::Identifier("node5".to_string())),
        ParseBufferItem::Token(Token::Delimiter(Delimiter::Equal)),
        ParseBufferItem::Token(Token::Identifier("node6".to_string())),
        ParseBufferItem::Token(Token::Identifier("node7".to_string())),
    ];
    let expected = AList {
        items: vec![
            Attribute {
                lhs: "node1".to_string(),
                rhs: "node2".to_string(),
            },
            Attribute {
                lhs: "node3".to_string(),
                rhs: "node4".to_string(),
            },
            Attribute {
                lhs: "node5".to_string(),
                rhs: "node6".to_string(),
            },
        ],
    };
    let result = AList::default().parse(&input);
    assert_eq!(
        result,
        Some(ParseResult {
            result: expected,
            remaining: vec![ParseBufferItem::Token(Token::Identifier(
                "node7".to_string()
            ))]
        })
    );
}

#[test]
fn test_attr_list() {
    let input = vec![
        ParseBufferItem::Token(Token::Delimiter(Delimiter::OpenSquareBrace)),
        ParseBufferItem::Token(Token::Identifier("label".to_string())),
        ParseBufferItem::Token(Token::Delimiter(Delimiter::Equal)),
        ParseBufferItem::Token(Token::Identifier("hello".to_string())),
        ParseBufferItem::Token(Token::Delimiter(Delimiter::ClosedSquareBrace)),
    ];

    let expected = AttrList {
        items: vec![Attribute {
            lhs: "label".to_string(),
            rhs: "hello".to_string(),
        }],
    };

    let result = AttrList::default().parse(&input);

    assert_eq!(result.is_some(), true);
    assert_eq!(result.unwrap().result, expected);
}

#[test]
fn test_attr_list_multiple() {
    let input = vec![
        ParseBufferItem::Token(Token::Delimiter(Delimiter::OpenSquareBrace)),
        ParseBufferItem::Token(Token::Identifier("label".to_string())),
        ParseBufferItem::Token(Token::Delimiter(Delimiter::Equal)),
        ParseBufferItem::Token(Token::Identifier("hello".to_string())),
        ParseBufferItem::Token(Token::Delimiter(Delimiter::ClosedSquareBrace)),
        ParseBufferItem::Token(Token::Delimiter(Delimiter::OpenSquareBrace)),
        ParseBufferItem::Token(Token::Identifier("color".to_string())),
        ParseBufferItem::Token(Token::Delimiter(Delimiter::Equal)),
        ParseBufferItem::Token(Token::Identifier("red".to_string())),
        ParseBufferItem::Token(Token::Delimiter(Delimiter::ClosedSquareBrace)),
    ];

    let expected = AttrList {
        items: vec![
            Attribute {
                lhs: "label".to_string(),
                rhs: "hello".to_string(),
            },
            Attribute {
                lhs: "color".to_string(),
                rhs: "red".to_string(),
            },
        ],
    };

    let result = AttrList::default().parse(&input);

    assert_eq!(result.is_some(), true);
    assert_eq!(result.unwrap().result, expected);
}

#[test]
fn mutliple_with_remaining() {
    let input = vec![
        ParseBufferItem::Token(Token::Delimiter(Delimiter::OpenSquareBrace)),
        ParseBufferItem::Token(Token::Identifier("label".to_string())),
        ParseBufferItem::Token(Token::Delimiter(Delimiter::Equal)),
        ParseBufferItem::Token(Token::Identifier("hello".to_string())),
        ParseBufferItem::Token(Token::Delimiter(Delimiter::ClosedSquareBrace)),
        ParseBufferItem::Token(Token::Delimiter(Delimiter::OpenSquareBrace)),
        ParseBufferItem::Token(Token::Identifier("color".to_string())),
        ParseBufferItem::Token(Token::Delimiter(Delimiter::Equal)),
        ParseBufferItem::Token(Token::Identifier("red".to_string())),
        ParseBufferItem::Token(Token::Delimiter(Delimiter::ClosedSquareBrace)),
        ParseBufferItem::Token(Token::Identifier("graph".to_string())),
    ];

    let expected = AttrList {
        items: vec![
            Attribute {
                lhs: "label".to_string(),
                rhs: "hello".to_string(),
            },
            Attribute {
                lhs: "color".to_string(),
                rhs: "red".to_string(),
            },
        ],
    };

    let result = AttrList::default().parse(&input);

    assert_eq!(result.is_some(), true);
    assert_eq!(result.clone().unwrap().result, expected);
    assert_eq!(result.unwrap().remaining.len(), 1);
}

#[test]
fn test_attribute_stmt() {
    let input = vec![
        ParseBufferItem::Token(Token::Keyword(Keyword::Graph)),
        ParseBufferItem::Token(Token::Delimiter(Delimiter::OpenSquareBrace)),
        ParseBufferItem::Token(Token::Identifier("label".to_string())),
        ParseBufferItem::Token(Token::Delimiter(Delimiter::Equal)),
        ParseBufferItem::Token(Token::Identifier("hello".to_string())),
        ParseBufferItem::Token(Token::Delimiter(Delimiter::ClosedSquareBrace)),
    ];
    let expected = AttrStmt::new(
        AttrStmtKind::Graph,
        AttrList {
            items: vec![Attribute {
                lhs: "label".to_string(),
                rhs: "hello".to_string(),
            }],
        },
    );
    let result = AttrStmt::new(AttrStmtKind::Graph, AttrList::default()).parse(&input);
    assert_eq!(
        result,
        Some(ParseResult {
            result: expected,
            remaining: vec![]
        })
    );
}

#[test]
fn test_parse_port_dangling_second_colon() {
    // the trailing `':' compass` group is optional: a second identifier
    // that is not a compass point leaves the port at `':' ID`
    let input = vec![
        ParseBufferItem::Token(Token::Delimiter(Delimiter::Colon)),
        ParseBufferItem::Token(Token::Identifier("p".to_string())),
        ParseBufferItem::Token(Token::Delimiter(Delimiter::Colon)),
        ParseBufferItem::Token(Token::Identifier("q".to_string())),
    ];
    let expected = Port {
        id: Some("p".to_string()),
        compass: None,
    };
    let result = Port {
        id: None,
        compass: None,
    }
    .parse(&input);
    assert_eq!(
        result,
        Some(ParseResult {
            result: expected,
            remaining: vec![
                ParseBufferItem::Token(Token::Delimiter(Delimiter::Colon)),
                ParseBufferItem::Token(Token::Identifier("q".to_string())),
            ]
        })
    );
}

#[test]
fn test_attr_list_empty_group() {
    // the inner a_list is optional: `[]` is a valid empty attribute list
    let input = vec![
        ParseBufferItem::Token(Token::Delimiter(Delimiter::OpenSquareBrace)),
        ParseBufferItem::Token(Token::Delimiter(Delimiter::ClosedSquareBrace)),
    ];
    let result = AttrList::default().parse(&input);
    assert_eq!(
        result,
        Some(ParseResult {
            result: AttrList { items: vec![] },
            remaining: vec![]
        })
    );
}

#[test]
fn test_attr_list_empty_group_flattens() {
    let input = vec![
        ParseBufferItem::Token(Token::Delimiter(Delimiter::OpenSquareBrace)),
        ParseBufferItem::Token(Token::Delimiter(Delimiter::ClosedSquareBrace)),
        ParseBufferItem::Token(Token::Delimiter(Delimiter::OpenSquareBrace)),
        ParseBufferItem::Token(Token::Identifier("a".to_string())),
        ParseBufferItem::Token(Token::Delimiter(Delimiter::Equal)),
        ParseBufferItem::Token(Token::Identifier("1".to_string())),
        ParseBufferItem::Token(Token::Delimiter(Delimiter::ClosedSquareBrace)),
    ];
    let result = AttrList::default().parse(&input).unwrap();
    assert_eq!(
        result.result,
        AttrList {
            items: vec![Attribute {
                lhs: "a".to_string(),
                rhs: "1".to_string(),
            }],
        }
    );
    assert_eq!(result.remaining, vec![]);
}
