use dot_parser::ast::{
    AttrStmtKind, Attribute, Compass, DotGraph, EdgeOp, EdgeRhs, EdgeStmt, EdgeStmtSide, GraphType,
    NodeId, NodeStmt, Port, Statement, SubGraph,
};
use dot_parser::{parse, DotError};

fn node_side(name: &str) -> EdgeStmtSide {
    EdgeStmtSide::NodeId(NodeId {
        id: name.to_string(),
        port: None,
    })
}

fn plain_edge(from: &str, op: EdgeOp, to: &str) -> Statement {
    Statement::EdgeStmt(EdgeStmt {
        edge_lhs: node_side(from),
        edge_rhs: EdgeRhs {
            edge_op: op,
            edge_to: node_side(to),
            edge_optional: None,
        },
        attributes: None,
    })
}

#[test]
fn scenario_undirected_graph() {
    let g = parse("graph { a -- b; b -- c; }".to_string()).unwrap();
    let expected = DotGraph {
        graph_type: GraphType::Graph,
        strict_mode: false,
        id: None,
        statements: vec![
            plain_edge("a", EdgeOp::UnDirected, "b"),
            plain_edge("b", EdgeOp::UnDirected, "c"),
        ],
    };
    assert_eq!(g, expected);
}

#[test]
fn scenario_digraph_with_edge_attribute() {
    let g = parse("digraph G { A -> B [label=\"edge label\"]; }".to_string()).unwrap();
    let expected = DotGraph {
        graph_type: GraphType::Digraph,
        strict_mode: false,
        id: Some("G".to_string()),
        statements: vec![Statement::EdgeStmt(EdgeStmt {
            edge_lhs: node_side("A"),
            edge_rhs: EdgeRhs {
                edge_op: EdgeOp::Directed,
                edge_to: node_side("B"),
                edge_optional: None,
            },
            attributes: Some(vec![Attribute {
                lhs: "label".to_string(),
                rhs: "edge label".to_string(),
            }]),
        })],
    };
    assert_eq!(g, expected);
}

#[test]
fn scenario_strict_empty_graph() {
    let g = parse("strict graph { }".to_string()).unwrap();
    let expected = DotGraph {
        graph_type: GraphType::Graph,
        strict_mode: true,
        id: None,
        statements: vec![],
    };
    assert_eq!(g, expected);
}

#[test]
fn scenario_missing_closing_brace() {
    let res = parse("graph { ".to_string());
    assert!(matches!(res, Err(DotError::Parse(_))));
}

#[test]
fn scenario_unterminated_quote() {
    let res = parse("graph { A [label=\"oops] }".to_string());
    match res {
        Err(DotError::Tokenize(e)) => {
            // the scan fails at the end of the input, still on line 0
            assert_eq!(e.line, 0);
        }
        other => panic!("expected a tokenize error, got {:?}", other),
    }
}

#[test]
fn whitespace_never_affects_the_ast() {
    let tight = parse("digraph G{A->B;X[c=d];}".to_string()).unwrap();
    let spread = parse("digraph   G {\n\n  A -> B ;\n   X [ c = d ] ;\n }\n".to_string()).unwrap();
    assert_eq!(tight, spread);
}

#[test]
fn compass_wins_over_port_id() {
    let g = parse("graph { a:n -- b:p:sw; }".to_string()).unwrap();
    let expected = DotGraph {
        graph_type: GraphType::Graph,
        strict_mode: false,
        id: None,
        statements: vec![Statement::EdgeStmt(EdgeStmt {
            edge_lhs: EdgeStmtSide::NodeId(NodeId {
                id: "a".to_string(),
                port: Some(Port {
                    id: None,
                    compass: Some(Compass::N),
                }),
            }),
            edge_rhs: EdgeRhs {
                edge_op: EdgeOp::UnDirected,
                edge_to: EdgeStmtSide::NodeId(NodeId {
                    id: "b".to_string(),
                    port: Some(Port {
                        id: Some("p".to_string()),
                        compass: Some(Compass::Sw),
                    }),
                }),
                edge_optional: None,
            },
            attributes: None,
        })],
    };
    assert_eq!(g, expected);
}

#[test]
fn bracket_groups_flatten() {
    let g = parse("graph { x [a=1][b=2]; }".to_string()).unwrap();
    let expected = DotGraph {
        graph_type: GraphType::Graph,
        strict_mode: false,
        id: None,
        statements: vec![Statement::NodeStmt(NodeStmt {
            id: "x".to_string(),
            attributes: Some(vec![
                Attribute {
                    lhs: "a".to_string(),
                    rhs: "1".to_string(),
                },
                Attribute {
                    lhs: "b".to_string(),
                    rhs: "2".to_string(),
                },
            ]),
        })],
    };
    assert_eq!(g, expected);
}

#[test]
fn unseparated_and_separated_attributes_both_parse() {
    let with_seps = parse("graph { x [a=1,b=2;c=3]; }".to_string()).unwrap();
    let without_seps = parse("graph { x [a=1 b=2 c=3]; }".to_string()).unwrap();
    assert_eq!(with_seps, without_seps);
}

#[test]
fn edge_chain_parses_as_linked_continuations() {
    let g = parse("digraph { a -> b -> c; }".to_string()).unwrap();
    let expected = DotGraph {
        graph_type: GraphType::Digraph,
        strict_mode: false,
        id: None,
        statements: vec![Statement::EdgeStmt(EdgeStmt {
            edge_lhs: node_side("a"),
            edge_rhs: EdgeRhs {
                edge_op: EdgeOp::Directed,
                edge_to: node_side("b"),
                edge_optional: Some(Box::new(EdgeRhs {
                    edge_op: EdgeOp::Directed,
                    edge_to: node_side("c"),
                    edge_optional: None,
                })),
            },
            attributes: None,
        })],
    };
    assert_eq!(g, expected);
}

#[test]
fn subgraphs_nest_and_join_edges() {
    let g = parse("graph { subgraph S { a; } -- b; }".to_string()).unwrap();
    let expected = DotGraph {
        graph_type: GraphType::Graph,
        strict_mode: false,
        id: None,
        statements: vec![Statement::EdgeStmt(EdgeStmt {
            edge_lhs: EdgeStmtSide::SubGraph(SubGraph {
                id: Some("S".to_string()),
                statements: vec![Statement::NodeStmt(NodeStmt {
                    id: "a".to_string(),
                    attributes: None,
                })],
            }),
            edge_rhs: EdgeRhs {
                edge_op: EdgeOp::UnDirected,
                edge_to: node_side("b"),
                edge_optional: None,
            },
            attributes: None,
        })],
    };
    assert_eq!(g, expected);
}

#[test]
fn anonymous_subgraph_statement() {
    let g = parse("graph { { x; } }".to_string()).unwrap();
    let expected = DotGraph {
        graph_type: GraphType::Graph,
        strict_mode: false,
        id: None,
        statements: vec![Statement::SubGraph(SubGraph {
            id: None,
            statements: vec![Statement::NodeStmt(NodeStmt {
                id: "x".to_string(),
                attributes: None,
            })],
        })],
    };
    assert_eq!(g, expected);
}

#[test]
fn default_attribute_statement() {
    let g = parse("graph { node [shape=circle]; }".to_string()).unwrap();
    match &g.statements[..] {
        [Statement::AttrStmt(s)] => {
            assert_eq!(s.kind, AttrStmtKind::Node);
            assert_eq!(
                s.attr_list.items,
                vec![Attribute {
                    lhs: "shape".to_string(),
                    rhs: "circle".to_string(),
                }]
            );
        }
        other => panic!("expected one attribute statement, got {:?}", other),
    }
}

#[test]
fn bare_attribute_statement() {
    let g = parse("graph { rankdir = LR; }".to_string()).unwrap();
    let expected = DotGraph {
        graph_type: GraphType::Graph,
        strict_mode: false,
        id: None,
        statements: vec![Statement::Attribute(Attribute {
            lhs: "rankdir".to_string(),
            rhs: "LR".to_string(),
        })],
    };
    assert_eq!(g, expected);
}

#[test]
fn trailing_dash_in_document_is_fatal() {
    let res = parse("graph { a - b }".to_string());
    assert!(matches!(res, Err(DotError::Tokenize(_))));
}

#[test]
fn deeply_nested_subgraphs_parse() {
    // kept modest: trying an edge statement before the subgraph alternative
    // makes backtracking over nested subgraphs exponential in the depth
    let depth = 12;
    let mut src = String::from("graph { ");
    for _ in 0..depth {
        src.push('{');
    }
    src.push('x');
    for _ in 0..depth {
        src.push('}');
    }
    src.push_str(" }");
    let g = parse(src).unwrap();
    // unwrap the nesting back down to the single node statement
    let mut stmts = g.statements;
    for _ in 0..depth {
        match stmts.remove(0) {
            Statement::SubGraph(sub) => {
                assert!(sub.id.is_none());
                stmts = sub.statements;
            }
            other => panic!("expected a subgraph, got {:?}", other),
        }
    }
    assert_eq!(
        stmts,
        vec![Statement::NodeStmt(NodeStmt {
            id: "x".to_string(),
            attributes: None,
        })]
    );
}

#[test]
fn node_with_empty_attribute_list() {
    let g = parse("graph { a []; }".to_string()).unwrap();
    let expected = DotGraph {
        graph_type: GraphType::Graph,
        strict_mode: false,
        id: None,
        statements: vec![Statement::NodeStmt(NodeStmt {
            id: "a".to_string(),
            attributes: Some(vec![]),
        })],
    };
    assert_eq!(g, expected);
}

#[test]
fn nesting_beyond_the_depth_limit_is_a_structural_error() {
    let depth = dot_parser::parser::MAX_NESTING_DEPTH + 10;
    let mut src = String::from("graph { ");
    for _ in 0..depth {
        src.push('{');
    }
    src.push('x');
    for _ in 0..depth {
        src.push('}');
    }
    src.push_str(" }");
    match parse(src) {
        Err(DotError::Parse(e)) => {
            assert_eq!(
                e.token,
                Some(dot_parser::tokenizer::Token::Delimiter(
                    dot_parser::tokenizer::Delimiter::OpenCurlyBrace
                ))
            );
        }
        other => panic!("expected a structural error, got {:?}", other),
    }
}

#[test]
fn long_edge_chains_parse_iteratively() {
    let links = 10_000;
    let mut src = String::from("digraph { a");
    for _ in 0..links {
        src.push_str(" -> a");
    }
    src.push_str("; }");
    let g = parse(src).unwrap();
    match &g.statements[..] {
        [Statement::EdgeStmt(e)] => {
            let mut count = 1usize;
            let mut cur = &e.edge_rhs;
            while let Some(next) = &cur.edge_optional {
                count += 1;
                cur = next;
            }
            assert_eq!(count, links);
        }
        other => panic!("expected one edge statement, got {:?}", other),
    }
}
