//! The node-reference parser: `ID [port]`.

use crate::ast::{NodeId, NodeIdV};
use crate::combinator::{
    items_view, items_suffix, ParseBufferItem, ParseBufferItemV, ParseResult, Parser,
};
use crate::parser_port::{parse_port_at, spec_parse_port};
use crate::tokenizer::{Token, TokenV};
use vstd::prelude::*;

verus! {

/// What the node-reference parser yields: a leading identifier, and a port
/// if one parses right after it.
pub open spec fn spec_parse_node_id(input: Seq<ParseBufferItemV>) -> Option<
    (NodeIdV, Seq<ParseBufferItemV>),
> {
    if input.len() >= 1 {
        match input[0] {
            ParseBufferItemV::Token(TokenV::Identifier(w)) => {
                match spec_parse_port(input.skip(1)) {
                    Some((p, rem)) => Some((NodeIdV { id: w, port: Some(p) }, rem)),
                    None => Some((NodeIdV { id: w, port: None }, input.skip(1))),
                }
            },
            _ => None,
        }
    } else {
        None
    }
}

/// Node-reference parse at a position, mirroring [`spec_parse_node_id`].
pub fn parse_node_id_at(input: &[ParseBufferItem], pos: usize) -> (r: Option<(NodeId, usize)>)
    requires
        pos <= input@.len(),
    ensures
        (match (r, spec_parse_node_id(items_view(input@).skip(pos as int))) {
            (Some((n, pos2)), Some((nv, rem))) => {
                &&& n@ == nv
                &&& pos <= pos2 <= input@.len()
                &&& rem == items_view(input@).skip(pos2 as int)
            },
            (None, None) => true,
            _ => false,
        }),
{
    let ghost suffix = items_view(input@).skip(pos as int);
    if pos >= input.len() {
        return None;
    }
    assert(suffix[0] == input@[pos as int]@);
    match &input[pos] {
        ParseBufferItem::Token(Token::Identifier(s)) => {
            proof {
                assert(suffix.skip(1) =~= items_view(input@).skip(pos + 1));
            }
            match parse_port_at(input, pos + 1) {
                Some((p, pos2)) => Some((NodeId { id: s.clone(), port: Some(p) }, pos2)),
                None => Some((NodeId { id: s.clone(), port: None }, pos + 1)),
            }
        },
        _ => None,
    }
}

impl Parser<NodeId> for NodeId {
    /// Parses a node reference from the front of the buffer.  The receiver
    /// only selects the parser; its own value is ignored.
    fn parse(&self, input: &[ParseBufferItem]) -> (r: Option<ParseResult<NodeId>>)
        ensures
            (match (r, spec_parse_node_id(items_view(input@))) {
                (Some(pr), Some((nv, rem))) => pr.result@ == nv && items_view(pr.remaining@)
                    == rem,
                (None, None) => true,
                _ => false,
            }),
    {
        proof {
            assert(items_view(input@).skip(0) =~= items_view(input@));
        }
        match parse_node_id_at(input, 0) {
            Some((n, pos2)) => Some(ParseResult { result: n, remaining: items_suffix(input, pos2) }),
            None => None,
        }
    }
}

} // verus!
