//! The graph-head parser: `[strict] (graph|digraph) [ID] '{' ... '}'`.
//! Unlike the grammar combinators it does not backtrack: any mismatch is
//! a fatal structural error, not a "no match".

use crate::ast::{DotGraph, GraphType, ParserError, ParserErrV};
use crate::tokenizer::{Delimiter, Keyword, Token, TokenV};
use vstd::prelude::*;

verus! {

/// What the head parser determines: the graph type, the strict flag, the
/// optional name, and the index of the first body token.  Each structural
/// fault names the offending token, or `None` when the input was
/// exhausted or too short.
pub open spec fn spec_parse_head(toks: Seq<TokenV>) -> Result<
    (GraphType, bool, Option<Seq<char>>, int),
    ParserErrV,
> {
    if toks.len() < 3 {
        Err(ParserErrV { token: None })
    } else {
        let strict = toks[0] == TokenV::Keyword(Keyword::Strict);
        let i: int = if strict {
            1
        } else {
            0
        };
        let gtype = if toks[i] == TokenV::Keyword(Keyword::Graph) {
            Some(GraphType::Graph)
        } else if toks[i] == TokenV::Keyword(Keyword::Digraph) {
            Some(GraphType::Digraph)
        } else {
            None
        };
        match gtype {
            None => Err(ParserErrV { token: Some(toks[i]) }),
            Some(gt) => {
                let head = match toks[i + 1] {
                    TokenV::Identifier(w) => {
                        if i + 2 >= toks.len() {
                            Err(ParserErrV { token: None })
                        } else if toks[i + 2] == TokenV::Delimiter(Delimiter::OpenCurlyBrace) {
                            Ok((Some(w), i + 3))
                        } else {
                            Err(ParserErrV { token: Some(toks[i + 2]) })
                        }
                    },
                    TokenV::Delimiter(Delimiter::OpenCurlyBrace) => Ok(
                        (None::<Seq<char>>, i + 2),
                    ),
                    _ => Err(ParserErrV { token: Some(toks[i + 1]) }),
                };
                match head {
                    Err(e) => Err(e),
                    Ok((id, start)) => {
                        if start >= toks.len() {
                            Err(ParserErrV { token: None })
                        } else if toks[toks.len() - 1] == TokenV::Delimiter(
                            Delimiter::ClosedCurlyBrace,
                        ) {
                            Ok((gt, strict, id, start))
                        } else {
                            Err(ParserErrV { token: Some(toks[toks.len() - 1]) })
                        }
                    },
                }
            },
        }
    }
}

/// Parses the graph head, yielding a [`DotGraph`] whose statement list is
/// still empty.  Fails with a structural error exactly where
/// [`spec_parse_head`] does.
pub fn parse_head(tokens_vec: &[Token]) -> (r: Result<DotGraph, ParserError>)
    ensures
        (match (r, spec_parse_head(tokens_vec@.map_values(|t: Token| t@))) {
            (Ok(dg), Ok((gt, strict, id, start))) => {
                &&& dg@.graph_type == gt
                &&& dg@.strict_mode == strict
                &&& dg@.id == id
                &&& dg@.statements == Seq::<crate::ast::StatementV>::empty()
            },
            (Err(e), Err(ev)) => e@ == ev,
            _ => false,
        }),
{
    let ghost tv = tokens_vec@.map_values(|t: Token| t@);
    if tokens_vec.len() < 3 {
        return Err(
            ParserError { token: None, reason: Some("Need atleast 3 tokens".to_owned()) },
        );
    }
    assert(tv[0] == tokens_vec@[0]@);
    let strict = match &tokens_vec[0] {
        Token::Keyword(Keyword::Strict) => true,
        _ => false,
    };
    let i: usize = if strict {
        1
    } else {
        0
    };
    assert(tv[i as int] == tokens_vec@[i as int]@);
    let gtype = match &tokens_vec[i] {
        Token::Keyword(Keyword::Graph) => Some(GraphType::Graph),
        Token::Keyword(Keyword::Digraph) => Some(GraphType::Digraph),
        _ => None,
    };
    let gt = match gtype {
        None => {
            return Err(
                ParserError {
                    token: Some(tokens_vec[i].clone()),
                    reason: Some(
                        "Graph should start with Keywords: strict/graph/digraph".to_owned(),
                    ),
                },
            );
        },
        Some(gt) => gt,
    };
    assert(tv[i + 1] == tokens_vec@[i as int + 1]@);
    let (id, start): (Option<String>, usize) = match &tokens_vec[i + 1] {
        Token::Identifier(w) => {
            if i + 2 >= tokens_vec.len() {
                return Err(
                    ParserError {
                        token: None,
                        reason: Some("Expected { after graph's name".to_owned()),
                    },
                );
            }
            assert(tv[i + 2] == tokens_vec@[i as int + 2]@);
            let open = match &tokens_vec[i + 2] {
                Token::Delimiter(Delimiter::OpenCurlyBrace) => true,
                _ => false,
            };
            if open {
                (Some(w.clone()), i + 3)
            } else {
                return Err(
                    ParserError {
                        token: Some(tokens_vec[i + 2].clone()),
                        reason: Some("Expected { after graph's name".to_owned()),
                    },
                );
            }
        },
        Token::Delimiter(Delimiter::OpenCurlyBrace) => (None, i + 2),
        _ => {
            return Err(
                ParserError {
                    token: Some(tokens_vec[i + 1].clone()),
                    reason: Some(
                        "After graph/digraph, we expect graph's name or open brace".to_owned(),
                    ),
                },
            );
        },
    };
    if start >= tokens_vec.len() {
        return Err(
            ParserError { token: None, reason: Some("Expected } at the end".to_owned()) },
        );
    }
    assert(tv[tv.len() - 1] == tokens_vec@[tokens_vec@.len() - 1]@);
    let closed = match &tokens_vec[tokens_vec.len() - 1] {
        Token::Delimiter(Delimiter::ClosedCurlyBrace) => true,
        _ => false,
    };
    if !closed {
        return Err(
            ParserError {
                token: Some(tokens_vec[tokens_vec.len() - 1].clone()),
                reason: Some("Expected } at the end".to_owned()),
            },
        );
    }
    let dg = DotGraph { graph_type: gt, strict_mode: strict, id, statements: Vec::new() };
    assert(dg@.statements =~= Seq::<crate::ast::StatementV>::empty());
    Ok(dg)
}

} // verus!
