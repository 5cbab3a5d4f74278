//! The statement grammar: node statements, edge statements with their
//! chains, subgraphs, and the statement list.  Statement alternatives are
//! tried in a fixed order — an edge statement before a node statement,
//! since a node statement is a strict prefix of an edge statement, and a
//! bare attribute before a node statement, since `ID '=' ID` would
//! otherwise be mistaken for the start of one.

use crate::ast::{
    Attribute, EdgeOp, EdgeRhs, EdgeRhsV, EdgeStmt, EdgeStmtSide, EdgeStmtSideV, EdgeStmtV,
    NodeStmt, NodeStmtV, Statement, StatementV, SubGraph, SubGraphV, edge_rhs_view,
    edge_stmt_view, lemma_stmts_view_push, opt_string_view, side_view, stmt_view, stmts_view,
    subgraph_view,
};
use crate::combinator::{items_view, ParseBufferItem, ParseBufferItemV};
use crate::parser_attr_list::{lemma_attr_list_consumes, parse_attr_list_at, spec_parse_attr_list};
use crate::parser_attribute::{parse_attribute_at, spec_parse_attribute};
use crate::parser_attribute_stmt::{parse_attr_stmt_at, spec_parse_attr_stmt};
use crate::parser_node_id::{parse_node_id_at, spec_parse_node_id};
use crate::parser_port::is_delim_item;
use crate::tokenizer::{Delimiter, Keyword, Token, TokenV};
use vstd::prelude::*;

verus! {

/// What the node-statement parser yields: `ID [attr_list]`.
pub open spec fn spec_parse_node_stmt(input: Seq<ParseBufferItemV>) -> Option<
    (NodeStmtV, Seq<ParseBufferItemV>),
> {
    if input.len() >= 1 {
        match input[0] {
            ParseBufferItemV::Token(TokenV::Identifier(w)) => {
                match spec_parse_attr_list(input.skip(1)) {
                    Some((items, rem)) => Some(
                        (NodeStmtV { id: w, attributes: Some(items) }, rem),
                    ),
                    None => Some((NodeStmtV { id: w, attributes: None }, input.skip(1))),
                }
            },
            _ => None,
        }
    } else {
        None
    }
}

/// The head of a subgraph: an optional `subgraph` keyword with an optional
/// name, then the opening brace.  Yields the name and the body's start.
pub open spec fn spec_subgraph_header(input: Seq<ParseBufferItemV>) -> Option<
    (Option<Seq<char>>, int),
> {
    if input.len() >= 1 && input[0] == ParseBufferItemV::Token(TokenV::Keyword(Keyword::SubGraph)) {
        if input.len() >= 2 && (input[1] matches ParseBufferItemV::Token(TokenV::Identifier(_))) {
            if input.len() >= 3 && is_delim_item(input[2], Delimiter::OpenCurlyBrace) {
                Some((Some(input[1]->Token_0->Identifier_0), 3))
            } else {
                None
            }
        } else if input.len() >= 2 && is_delim_item(input[1], Delimiter::OpenCurlyBrace) {
            Some((None, 2))
        } else {
            None
        }
    } else if input.len() >= 1 && is_delim_item(input[0], Delimiter::OpenCurlyBrace) {
        Some((None, 1))
    } else {
        None
    }
}

/// What the subgraph parser yields: the header's name, the statements of
/// the body, and a mandatory closing brace.
pub open spec fn spec_parse_subgraph(input: Seq<ParseBufferItemV>) -> Option<
    (SubGraphV, Seq<ParseBufferItemV>),
>
    decreases input.len(), 0int,
{
    match spec_subgraph_header(input) {
        None => None,
        Some((id, start)) => {
            proof {
                assert(1 <= start <= 3 && start <= input.len());
            }
            let (stmts, rem) = spec_parse_statements(input.skip(start));
            if rem.len() >= 1 && is_delim_item(rem[0], Delimiter::ClosedCurlyBrace) {
                Some((SubGraphV { id, statements: stmts }, rem.skip(1)))
            } else {
                None
            }
        },
    }
}

/// What the edge-endpoint parser yields: a subgraph when the input starts
/// with `subgraph` or `{`, a node reference otherwise.
pub open spec fn spec_parse_edge_side(input: Seq<ParseBufferItemV>) -> Option<
    (EdgeStmtSideV, Seq<ParseBufferItemV>),
>
    decreases input.len(), 1int,
{
    if input.len() >= 1 && (input[0] == ParseBufferItemV::Token(TokenV::Keyword(Keyword::SubGraph))
        || is_delim_item(input[0], Delimiter::OpenCurlyBrace)) {
        match spec_parse_subgraph(input) {
            Some((g, rem)) => Some((EdgeStmtSideV::SubGraph(g), rem)),
            None => None,
        }
    } else {
        match spec_parse_node_id(input) {
            Some((n, rem)) => Some((EdgeStmtSideV::NodeId(n), rem)),
            None => None,
        }
    }
}

/// The edge operator an item denotes, if any.
pub open spec fn edge_op_of(it: ParseBufferItemV) -> Option<EdgeOp> {
    if is_delim_item(it, Delimiter::UndirectedEdge) {
        Some(EdgeOp::UnDirected)
    } else if is_delim_item(it, Delimiter::DirectedEdge) {
        Some(EdgeOp::Directed)
    } else {
        None
    }
}

/// What the edge-continuation parser yields: an edge operator, the next
/// endpoint, and the rest of the chain for as long as another operator
/// follows.
pub open spec fn spec_parse_edge_rhs(input: Seq<ParseBufferItemV>) -> Option<
    (EdgeRhsV, Seq<ParseBufferItemV>),
>
    decreases input.len(), 2int,
{
    if input.len() >= 1 {
        match edge_op_of(input[0]) {
            None => None,
            Some(op) => match spec_parse_edge_side(input.skip(1)) {
                None => None,
                Some((side, rem)) => {
                    if rem.len() < input.len() {
                        match spec_parse_edge_rhs(rem) {
                            Some((next, rem2)) => Some(
                                (
                                    EdgeRhsV {
                                        edge_op: op,
                                        edge_to: side,
                                        edge_optional: Some(Box::new(next)),
                                    },
                                    rem2,
                                ),
                            ),
                            None => Some(
                                (EdgeRhsV { edge_op: op, edge_to: side, edge_optional: None }, rem),
                            ),
                        }
                    } else {
                        // an endpoint always consumes input, so this branch is
                        // never taken; it only justifies termination
                        Some((EdgeRhsV { edge_op: op, edge_to: side, edge_optional: None }, rem))
                    }
                },
            },
        }
    } else {
        None
    }
}

/// What the edge-statement parser yields: a first endpoint, at least one
/// continuation, and an optional trailing attribute list.
pub open spec fn spec_parse_edge_stmt(input: Seq<ParseBufferItemV>) -> Option<
    (EdgeStmtV, Seq<ParseBufferItemV>),
>
    decreases input.len(), 3int,
{
    match spec_parse_edge_side(input) {
        None => None,
        Some((lhs, rem1)) => {
            if rem1.len() <= input.len() {
                match spec_parse_edge_rhs(rem1) {
                    None => None,
                    Some((rhs, rem2)) => match spec_parse_attr_list(rem2) {
                        Some((items, rem3)) => Some(
                            (
                                EdgeStmtV {
                                    edge_lhs: lhs,
                                    edge_rhs: rhs,
                                    attributes: Some(items),
                                },
                                rem3,
                            ),
                        ),
                        None => Some(
                            (EdgeStmtV { edge_lhs: lhs, edge_rhs: rhs, attributes: None }, rem2),
                        ),
                    },
                }
            } else {
                // an endpoint never hands back more than it was given, so
                // this branch is never taken; it only justifies termination
                None
            }
        },
    }
}

/// What the statement parser yields.  The alternatives are tried in order:
/// edge statement, default-attribute statement, subgraph, bare attribute,
/// node statement; the first match wins.
pub open spec fn spec_parse_statement(input: Seq<ParseBufferItemV>) -> Option<
    (StatementV, Seq<ParseBufferItemV>),
>
    decreases input.len(), 4int,
{
    match spec_parse_edge_stmt(input) {
        Some((e, rem)) => Some((StatementV::EdgeStmt(e), rem)),
        None => match spec_parse_attr_stmt(input) {
            Some((a, rem)) => Some((StatementV::AttrStmt(a), rem)),
            None => match spec_parse_subgraph(input) {
                Some((g, rem)) => Some((StatementV::SubGraph(g), rem)),
                None => match spec_parse_attribute(input) {
                    Some((a, rem)) => Some((StatementV::Attribute(a), rem)),
                    None => match spec_parse_node_stmt(input) {
                        Some((n, rem)) => Some((StatementV::NodeStmt(n), rem)),
                        None => None,
                    },
                },
            },
        },
    }
}

/// What the statement-list parser yields: statements for as long as one
/// matches, each followed by an optional semicolon.  It never fails; it
/// stops at the first position where no statement parses.
pub open spec fn spec_parse_statements(input: Seq<ParseBufferItemV>) -> (
    Seq<StatementV>,
    Seq<ParseBufferItemV>,
)
    decreases input.len(), 5int,
{
    match spec_parse_statement(input) {
        None => (Seq::empty(), input),
        Some((s, rem)) => {
            let rem2 = if rem.len() >= 1 && is_delim_item(rem[0], Delimiter::Semicolon) {
                rem.skip(1)
            } else {
                rem
            };
            if rem2.len() < input.len() {
                let (stmts, remf) = spec_parse_statements(rem2);
                (seq![s] + stmts, remf)
            } else {
                // a statement always consumes input, so this branch is never
                // taken; it only justifies termination
                (seq![s], rem2)
            }
        },
    }
}

/// A successful node statement consumes at least its identifier.
pub proof fn lemma_node_stmt_consumes(input: Seq<ParseBufferItemV>)
    ensures
        (match spec_parse_node_stmt(input) {
            Some((_, rem)) => rem.len() < input.len(),
            None => true,
        }),
{
    if input.len() >= 1 {
        match input[0] {
            ParseBufferItemV::Token(TokenV::Identifier(w)) => {
                lemma_attr_list_consumes(input.skip(1));
            },
            _ => {},
        }
    }
}

/// A successful node reference consumes at least its identifier.
pub proof fn lemma_node_id_consumes(input: Seq<ParseBufferItemV>)
    ensures
        (match spec_parse_node_id(input) {
            Some((_, rem)) => rem.len() < input.len(),
            None => true,
        }),
{
}

/// A successful subgraph consumes at least its braces.
pub proof fn lemma_subgraph_consumes(input: Seq<ParseBufferItemV>)
    ensures
        (match spec_parse_subgraph(input) {
            Some((_, rem)) => rem.len() < input.len(),
            None => true,
        }),
    decreases input.len(), 0int,
{
    match spec_subgraph_header(input) {
        None => {},
        Some((id, start)) => {
            lemma_statements_bound(input.skip(start));
        },
    }
}

/// The statement list never hands back more than it was given.
pub proof fn lemma_statements_bound(input: Seq<ParseBufferItemV>)
    ensures
        spec_parse_statements(input).1.len() <= input.len(),
    decreases input.len(), 5int,
{
    match spec_parse_statement(input) {
        None => {},
        Some((s, rem)) => {
            lemma_statement_consumes(input);
            let rem2 = if rem.len() >= 1 && is_delim_item(rem[0], Delimiter::Semicolon) {
                rem.skip(1)
            } else {
                rem
            };
            if rem2.len() < input.len() {
                lemma_statements_bound(rem2);
            }
        },
    }
}

/// A successful statement consumes at least one item.
pub proof fn lemma_statement_consumes(input: Seq<ParseBufferItemV>)
    ensures
        (match spec_parse_statement(input) {
            Some((_, rem)) => rem.len() < input.len(),
            None => true,
        }),
    decreases input.len(), 4int,
{
    lemma_edge_stmt_consumes(input);
    if spec_parse_edge_stmt(input) is None {
        if spec_parse_attr_stmt(input) is Some {
            if input.len() >= 1 {
                lemma_attr_list_consumes(input.skip(1));
            }
        } else {
            lemma_subgraph_consumes(input);
            lemma_node_stmt_consumes(input);
        }
    }
}

/// A successful edge endpoint consumes at least one item.
pub proof fn lemma_edge_side_consumes(input: Seq<ParseBufferItemV>)
    ensures
        (match spec_parse_edge_side(input) {
            Some((_, rem)) => rem.len() < input.len(),
            None => true,
        }),
    decreases input.len(), 1int,
{
    if input.len() >= 1 && (input[0] == ParseBufferItemV::Token(TokenV::Keyword(Keyword::SubGraph))
        || is_delim_item(input[0], Delimiter::OpenCurlyBrace)) {
        lemma_subgraph_consumes(input);
    } else {
        lemma_node_id_consumes(input);
    }
}

/// A successful edge continuation consumes its operator and endpoint.
pub proof fn lemma_edge_rhs_consumes(input: Seq<ParseBufferItemV>)
    ensures
        (match spec_parse_edge_rhs(input) {
            Some((_, rem)) => rem.len() < input.len(),
            None => true,
        }),
    decreases input.len(), 2int,
{
    if input.len() >= 1 && edge_op_of(input[0]) is Some {
        lemma_edge_side_consumes(input.skip(1));
        match spec_parse_edge_side(input.skip(1)) {
            None => {},
            Some((side, rem)) => {
                if rem.len() < input.len() {
                    lemma_edge_rhs_consumes(rem);
                }
            },
        }
    }
}

/// A successful edge statement consumes its endpoint and continuation.
pub proof fn lemma_edge_stmt_consumes(input: Seq<ParseBufferItemV>)
    ensures
        (match spec_parse_edge_stmt(input) {
            Some((_, rem)) => rem.len() < input.len(),
            None => true,
        }),
    decreases input.len(), 3int,
{
    lemma_edge_side_consumes(input);
    match spec_parse_edge_side(input) {
        None => {},
        Some((lhs, rem1)) => {
            lemma_edge_rhs_consumes(rem1);
            match spec_parse_edge_rhs(rem1) {
                None => {},
                Some((rhs, rem2)) => {
                    lemma_attr_list_consumes(rem2);
                },
            }
        },
    }
}

/// Node-statement parse at a position, mirroring [`spec_parse_node_stmt`].
pub fn parse_node_stmt_at(input: &[ParseBufferItem], pos: usize) -> (r: Option<(NodeStmt, usize)>)
    requires
        pos <= input@.len(),
    ensures
        (match (r, spec_parse_node_stmt(items_view(input@).skip(pos as int))) {
            (Some((n, pos2)), Some((nv, rem))) => {
                &&& n@ == nv
                &&& pos <= pos2 <= input@.len()
                &&& rem == items_view(input@).skip(pos2 as int)
            },
            (None, None) => true,
            _ => false,
        }),
{
    let ghost suffix = items_view(input@).skip(pos as int);
    if pos >= input.len() {
        return None;
    }
    assert(suffix[0] == input@[pos as int]@);
    match &input[pos] {
        ParseBufferItem::Token(Token::Identifier(s)) => {
            proof {
                assert(suffix.skip(1) =~= items_view(input@).skip(pos + 1));
            }
            match parse_attr_list_at(input, pos + 1) {
                Some((l, pos2)) => Some(
                    (NodeStmt { id: s.clone(), attributes: Some(l.items) }, pos2),
                ),
                None => Some((NodeStmt { id: s.clone(), attributes: None }, pos + 1)),
            }
        },
        _ => None,
    }
}

/// Subgraph parse at a position, mirroring [`spec_parse_subgraph`].
pub fn parse_subgraph_at(input: &[ParseBufferItem], pos: usize) -> (r: Option<(SubGraph, usize)>)
    requires
        pos <= input@.len(),
    ensures
        (match (r, spec_parse_subgraph(items_view(input@).skip(pos as int))) {
            (Some((g, pos2)), Some((gv, rem))) => {
                &&& subgraph_view(g) == gv
                &&& pos <= pos2 <= input@.len()
                &&& rem == items_view(input@).skip(pos2 as int)
            },
            (None, None) => true,
            _ => false,
        }),
    decreases input@.len() - pos, 0int,
{
    let ghost suffix = items_view(input@).skip(pos as int);
    if pos >= input.len() {
        return None;
    }
    assert(suffix[0] == input@[pos as int]@);
    // header: optional `subgraph` keyword, optional name, opening brace
    let is_subgraph_kw = match &input[pos] {
        ParseBufferItem::Token(Token::Keyword(Keyword::SubGraph)) => true,
        _ => false,
    };
    let header: Option<(Option<String>, usize)> = if is_subgraph_kw {
        if pos + 1 < input.len() {
            proof {
                assert(suffix[1] == input@[pos as int + 1]@);
            }
            match &input[pos + 1] {
                ParseBufferItem::Token(Token::Identifier(s)) => {
                    if pos + 2 < input.len() {
                        proof {
                            assert(suffix[2] == input@[pos as int + 2]@);
                        }
                        match &input[pos + 2] {
                            ParseBufferItem::Token(
                                Token::Delimiter(Delimiter::OpenCurlyBrace),
                            ) => Some((Some(s.clone()), pos + 3)),
                            _ => None,
                        }
                    } else {
                        None
                    }
                },
                ParseBufferItem::Token(Token::Delimiter(Delimiter::OpenCurlyBrace)) => Some(
                    (None, pos + 2),
                ),
                _ => None,
            }
        } else {
            None
        }
    } else {
        match &input[pos] {
            ParseBufferItem::Token(Token::Delimiter(Delimiter::OpenCurlyBrace)) => Some(
                (None, pos + 1),
            ),
            _ => None,
        }
    };
    match header {
        None => {
            proof {
                assert(spec_subgraph_header(suffix) is None);
            }
            None
        },
        Some((id, body)) => {
            proof {
                assert(spec_subgraph_header(suffix) matches Some((idv, st)) && idv
                    == opt_string_view(id) && body == pos + st);
                assert(suffix.skip(body - pos) =~= items_view(input@).skip(body as int));
            }
            let (stmts, pos2) = parse_statements_at(input, body);
            if pos2 < input.len() {
                assert(items_view(input@).skip(pos2 as int)[0] == input@[pos2 as int]@);
                let closed = match &input[pos2] {
                    ParseBufferItem::Token(Token::Delimiter(Delimiter::ClosedCurlyBrace)) => true,
                    _ => false,
                };
                if closed {
                    proof {
                        assert(items_view(input@).skip(pos2 as int).skip(1) =~= items_view(
                            input@,
                        ).skip(pos2 + 1));
                    }
                    Some((SubGraph { id, statements: stmts }, pos2 + 1))
                } else {
                    None
                }
            } else {
                None
            }
        },
    }
}

/// Edge-endpoint parse at a position, mirroring [`spec_parse_edge_side`].
pub fn parse_edge_side_at(input: &[ParseBufferItem], pos: usize) -> (r: Option<
    (EdgeStmtSide, usize),
>)
    requires
        pos <= input@.len(),
    ensures
        (match (r, spec_parse_edge_side(items_view(input@).skip(pos as int))) {
            (Some((s, pos2)), Some((sv, rem))) => {
                &&& side_view(s) == sv
                &&& pos <= pos2 <= input@.len()
                &&& rem == items_view(input@).skip(pos2 as int)
            },
            (None, None) => true,
            _ => false,
        }),
    decreases input@.len() - pos, 1int,
{
    let ghost suffix = items_view(input@).skip(pos as int);
    let subgraph_ahead = if pos < input.len() {
        proof {
            assert(suffix[0] == input@[pos as int]@);
        }
        match &input[pos] {
            ParseBufferItem::Token(Token::Keyword(Keyword::SubGraph)) => true,
            ParseBufferItem::Token(Token::Delimiter(Delimiter::OpenCurlyBrace)) => true,
            _ => false,
        }
    } else {
        false
    };
    if subgraph_ahead {
        match parse_subgraph_at(input, pos) {
            Some((g, pos2)) => Some((EdgeStmtSide::SubGraph(g), pos2)),
            None => None,
        }
    } else {
        match parse_node_id_at(input, pos) {
            Some((n, pos2)) => Some((EdgeStmtSide::NodeId(n), pos2)),
            None => None,
        }
    }
}

/// Edge-continuation parse at a position, mirroring
/// [`spec_parse_edge_rhs`].  The chain's links are collected iteratively
/// and folded into the linked continuation from the back, so the chain's
/// length adds nothing to the recursion depth.
#[verifier::rlimit(50)]
pub fn parse_edge_rhs_at(input: &[ParseBufferItem], pos: usize) -> (r: Option<(EdgeRhs, usize)>)
    requires
        pos <= input@.len(),
    ensures
        (match (r, spec_parse_edge_rhs(items_view(input@).skip(pos as int))) {
            (Some((e, pos2)), Some((ev, rem))) => {
                &&& edge_rhs_view(e) == ev
                &&& pos <= pos2 <= input@.len()
                &&& rem == items_view(input@).skip(pos2 as int)
            },
            (None, None) => true,
            _ => false,
        }),
    decreases input@.len() - pos, 2int,
{
    // forward pass: collect the chain's operators and endpoints
    let mut ops: Vec<EdgeOp> = Vec::new();
    let mut sides: Vec<EdgeStmtSide> = Vec::new();
    let ghost mut starts: Seq<int> = Seq::empty();
    let mut p: usize = pos;
    let mut done = false;
    while !done
        invariant
            pos <= p <= input@.len(),
            ops@.len() == sides@.len(),
            starts.len() == ops@.len(),
            ops@.len() == 0 ==> p == pos,
            ops@.len() > 0 ==> starts[0] == pos,
            forall|j: int|
                #![trigger starts[j]]
                0 <= j < starts.len() ==> {
                    let nj = if j + 1 < starts.len() {
                        starts[j + 1]
                    } else {
                        p as int
                    };
                    &&& pos <= starts[j]
                    &&& starts[j] + 2 <= nj <= input@.len()
                    &&& edge_op_of(items_view(input@).skip(starts[j])[0]) == Some(ops@[j])
                    &&& spec_parse_edge_side(items_view(input@).skip(starts[j] + 1)) == Some(
                        (side_view(sides@[j]), items_view(input@).skip(nj)),
                    )
                },
            done ==> spec_parse_edge_rhs(items_view(input@).skip(p as int)) is None,
        decreases input@.len() - p, (if done { 0int } else { 1int }),
    {
        let ghost suffix_p = items_view(input@).skip(p as int);
        if p >= input.len() {
            done = true;
        } else {
            proof {
                assert(suffix_p[0] == input@[p as int]@);
            }
            let op = match &input[p] {
                ParseBufferItem::Token(Token::Delimiter(Delimiter::UndirectedEdge)) => Some(
                    EdgeOp::UnDirected,
                ),
                ParseBufferItem::Token(Token::Delimiter(Delimiter::DirectedEdge)) => Some(
                    EdgeOp::Directed,
                ),
                _ => None,
            };
            match op {
                None => {
                    done = true;
                },
                Some(op) => {
                    proof {
                        assert(suffix_p.skip(1) =~= items_view(input@).skip(p + 1));
                    }
                    match parse_edge_side_at(input, p + 1) {
                        None => {
                            done = true;
                        },
                        Some((side, pnext)) => {
                            proof {
                                lemma_edge_side_consumes(suffix_p.skip(1));
                            }
                            let ghost pre_starts = starts;
                            ops.push(op);
                            sides.push(side);
                            proof {
                                starts = starts.push(p as int);
                                assert(starts[starts.len() - 1] == p);
                                assert(edge_op_of(items_view(input@).skip(p as int)[0]) == Some(
                                    op,
                                ));
                                assert forall|j: int| 0 <= j < pre_starts.len() implies starts[j]
                                    == pre_starts[j] by {}
                            }
                            p = pnext;
                        },
                    }
                },
            }
        }
    }
    if ops.len() == 0 {
        return None;
    }
    // backward pass: fold the links into the linked continuation
    let ghost p_end = p as int;
    let ghost k = starts.len();
    let mut chain: Option<EdgeRhs> = None;
    while ops.len() > 0
        invariant
            ops@.len() == sides@.len(),
            ops@.len() <= k,
            k == starts.len(),
            pos <= p <= input@.len(),
            p == p_end,
            spec_parse_edge_rhs(items_view(input@).skip(p_end)) is None,
            k > 0 && starts[0] == pos,
            forall|j: int|
                #![trigger starts[j]]
                0 <= j < ops@.len() ==> {
                    let nj = if j + 1 < k {
                        starts[j + 1]
                    } else {
                        p_end
                    };
                    &&& pos <= starts[j]
                    &&& starts[j] + 2 <= nj <= input@.len()
                    &&& edge_op_of(items_view(input@).skip(starts[j])[0]) == Some(ops@[j])
                    &&& spec_parse_edge_side(items_view(input@).skip(starts[j] + 1)) == Some(
                        (side_view(sides@[j]), items_view(input@).skip(nj)),
                    )
                },
            (match chain {
                None => ops@.len() == k,
                Some(c) => ops@.len() < k && spec_parse_edge_rhs(
                    items_view(input@).skip(starts[ops@.len() as int]),
                ) == Some((edge_rhs_view(c), items_view(input@).skip(p_end))),
            }),
        decreases ops@.len(),
    {
        let ghost j = ops@.len() - 1;
        let op = ops.pop().unwrap();
        let side = sides.pop().unwrap();
        let ghost st = starts[j];
        let ghost suffix_j = items_view(input@).skip(st);
        let ghost nj = if j + 1 < k {
            starts[j + 1]
        } else {
            p_end
        };
        let next = match chain {
            Some(c) => {
                proof {
                    assert(j + 1 < k);
                }
                Some(Box::new(c))
            },
            None => {
                proof {
                    assert(j + 1 == k);
                }
                None
            },
        };
        let link = EdgeRhs { edge_op: op, edge_to: side, edge_optional: next };
        proof {
            assert(suffix_j.len() >= 1);
            assert(suffix_j.skip(1) =~= items_view(input@).skip(st + 1));
            assert(edge_op_of(suffix_j[0]) == Some(op));
            assert(spec_parse_edge_side(suffix_j.skip(1)) == Some(
                (side_view(side), items_view(input@).skip(nj)),
            ));
            assert(items_view(input@).skip(nj).len() < suffix_j.len());
            assert(spec_parse_edge_rhs(suffix_j) == Some(
                (edge_rhs_view(link), items_view(input@).skip(p_end)),
            ));
        }
        chain = Some(link);
    }
    proof {
        assert(starts[0] == pos);
    }
    let c = chain.unwrap();
    Some((c, p))
}

/// Edge-statement parse at a position, mirroring
/// [`spec_parse_edge_stmt`].
pub fn parse_edge_stmt_at(input: &[ParseBufferItem], pos: usize) -> (r: Option<(EdgeStmt, usize)>)
    requires
        pos <= input@.len(),
    ensures
        (match (r, spec_parse_edge_stmt(items_view(input@).skip(pos as int))) {
            (Some((e, pos2)), Some((ev, rem))) => {
                &&& edge_stmt_view(e) == ev
                &&& pos <= pos2 <= input@.len()
                &&& rem == items_view(input@).skip(pos2 as int)
            },
            (None, None) => true,
            _ => false,
        }),
    decreases input@.len() - pos, 3int,
{
    let ghost suffix = items_view(input@).skip(pos as int);
    match parse_edge_side_at(input, pos) {
        None => None,
        Some((lhs, mid1)) => {
            match parse_edge_rhs_at(input, mid1) {
                None => None,
                Some((rhs, mid2)) => {
                    match parse_attr_list_at(input, mid2) {
                        Some((l, pos2)) => Some(
                            (
                                EdgeStmt {
                                    edge_lhs: lhs,
                                    edge_rhs: rhs,
                                    attributes: Some(l.items),
                                },
                                pos2,
                            ),
                        ),
                        None => Some(
                            (EdgeStmt { edge_lhs: lhs, edge_rhs: rhs, attributes: None }, mid2),
                        ),
                    }
                },
            }
        },
    }
}

/// Statement parse at a position, mirroring [`spec_parse_statement`].
pub fn parse_statement_at(input: &[ParseBufferItem], pos: usize) -> (r: Option<(Statement, usize)>)
    requires
        pos <= input@.len(),
    ensures
        (match (r, spec_parse_statement(items_view(input@).skip(pos as int))) {
            (Some((s, pos2)), Some((sv, rem))) => {
                &&& stmt_view(s) == sv
                &&& pos <= pos2 <= input@.len()
                &&& rem == items_view(input@).skip(pos2 as int)
            },
            (None, None) => true,
            _ => false,
        }),
    decreases input@.len() - pos, 4int,
{
    match parse_edge_stmt_at(input, pos) {
        Some((e, pos2)) => Some((Statement::EdgeStmt(e), pos2)),
        None => match parse_attr_stmt_at(input, pos) {
            Some((a, pos2)) => Some((Statement::AttrStmt(a), pos2)),
            None => match parse_subgraph_at(input, pos) {
                Some((g, pos2)) => Some((Statement::SubGraph(g), pos2)),
                None => match parse_attribute_at(input, pos) {
                    Some((a, pos2)) => Some((Statement::Attribute(a), pos2)),
                    None => match parse_node_stmt_at(input, pos) {
                        Some((n, pos2)) => Some((Statement::NodeStmt(n), pos2)),
                        None => None,
                    },
                },
            },
        },
    }
}

/// Statement-list parse at a position, mirroring
/// [`spec_parse_statements`]: statements with optional semicolons, for as
/// long as one matches.  The list is consumed iteratively, so its length
/// adds nothing to the recursion depth.
pub fn parse_statements_at(input: &[ParseBufferItem], pos: usize) -> (r: (Vec<Statement>, usize))
    requires
        pos <= input@.len(),
    ensures
        ({
            let (stmts, rem) = spec_parse_statements(items_view(input@).skip(pos as int));
            &&& stmts_view(r.0@) == stmts
            &&& pos <= r.1 <= input@.len()
            &&& rem == items_view(input@).skip(r.1 as int)
        }),
    decreases input@.len() - pos, 5int,
{
    let ghost orig = items_view(input@).skip(pos as int);
    let mut stmts: Vec<Statement> = Vec::new();
    let mut p: usize = pos;
    let mut done = false;
    proof {
        assert(stmts_view(stmts@) =~= Seq::<StatementV>::empty());
        assert(stmts_view(stmts@) + spec_parse_statements(orig).0 =~= spec_parse_statements(
            orig,
        ).0);
    }
    while !done
        invariant
            pos <= p <= input@.len(),
            orig == items_view(input@).skip(pos as int),
            ({
                let (s1, r1) = spec_parse_statements(items_view(input@).skip(p as int));
                &&& spec_parse_statements(orig).0 == stmts_view(stmts@) + s1
                &&& spec_parse_statements(orig).1 == r1
            }),
            done ==> spec_parse_statement(items_view(input@).skip(p as int)) is None,
        decreases input@.len() - p, (if done { 0int } else { 1int }),
    {
        let ghost suffix = items_view(input@).skip(p as int);
        match parse_statement_at(input, p) {
            None => {
                done = true;
            },
            Some((st, mid)) => {
                proof {
                    lemma_statement_consumes(suffix);
                }
                let mid2 = if mid < input.len() {
                    proof {
                        assert(items_view(input@).skip(mid as int)[0] == input@[mid as int]@);
                    }
                    let semi = match &input[mid] {
                        ParseBufferItem::Token(Token::Delimiter(Delimiter::Semicolon)) => true,
                        _ => false,
                    };
                    if semi {
                        proof {
                            assert(items_view(input@).skip(mid as int).skip(1) =~= items_view(
                                input@,
                            ).skip(mid + 1));
                        }
                        mid + 1
                    } else {
                        mid
                    }
                } else {
                    mid
                };
                let ghost pre_stmts = stmts@;
                let ghost sv = stmt_view(st);
                stmts.push(st);
                proof {
                    lemma_stmts_view_push(pre_stmts, st);
                    let (s1, r1) = spec_parse_statements(items_view(input@).skip(mid2 as int));
                    assert(spec_parse_statements(suffix).0 == seq![sv] + s1);
                    assert(spec_parse_statements(suffix).1 == r1);
                    assert(stmts_view(pre_stmts) + (seq![sv] + s1) =~= stmts_view(
                        pre_stmts,
                    ).push(sv) + s1);
                }
                p = mid2;
            },
        }
    }
    proof {
        let suffix = items_view(input@).skip(p as int);
        assert(spec_parse_statements(suffix).0 =~= Seq::<StatementV>::empty());
        assert(stmts_view(stmts@) + spec_parse_statements(suffix).0 =~= stmts_view(stmts@));
    }
    (stmts, p)
}

} // verus!
