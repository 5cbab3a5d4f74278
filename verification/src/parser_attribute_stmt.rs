//! The default-attribute statement parser: `('graph'|'node'|'edge')
//! attr_list`.

use crate::ast::{AttrList, AttrStmt, AttrStmtKind, AttrStmtV};
use crate::combinator::{
    items_view, items_suffix, ParseBufferItem, ParseBufferItemV, ParseResult, Parser,
};
use crate::parser_attr_list::{parse_attr_list_at, spec_parse_attr_list};
use crate::tokenizer::{Keyword, Token, TokenV};
use vstd::prelude::*;

verus! {

/// The statement kind a leading keyword item selects, if any.
pub open spec fn attr_stmt_kind_of(it: ParseBufferItemV) -> Option<AttrStmtKind> {
    match it {
        ParseBufferItemV::Token(TokenV::Keyword(Keyword::Graph)) => Some(AttrStmtKind::Graph),
        ParseBufferItemV::Token(TokenV::Keyword(Keyword::Node)) => Some(AttrStmtKind::Node),
        ParseBufferItemV::Token(TokenV::Keyword(Keyword::Edge)) => Some(AttrStmtKind::Edge),
        _ => None,
    }
}

/// What the default-attribute statement parser yields: the kind named by
/// the keyword, with the attribute list that follows it.
pub open spec fn spec_parse_attr_stmt(input: Seq<ParseBufferItemV>) -> Option<
    (AttrStmtV, Seq<ParseBufferItemV>),
> {
    if input.len() >= 1 {
        match attr_stmt_kind_of(input[0]) {
            Some(kind) => match spec_parse_attr_list(input.skip(1)) {
                Some((items, rem)) => Some((AttrStmtV { kind, attr_list: items }, rem)),
                None => None,
            },
            None => None,
        }
    } else {
        None
    }
}

/// Default-attribute statement parse at a position, mirroring
/// [`spec_parse_attr_stmt`].
pub fn parse_attr_stmt_at(input: &[ParseBufferItem], pos: usize) -> (r: Option<(AttrStmt, usize)>)
    requires
        pos <= input@.len(),
    ensures
        (match (r, spec_parse_attr_stmt(items_view(input@).skip(pos as int))) {
            (Some((s, pos2)), Some((sv, rem))) => {
                &&& s@ == sv
                &&& pos <= pos2 <= input@.len()
                &&& rem == items_view(input@).skip(pos2 as int)
            },
            (None, None) => true,
            _ => false,
        }),
{
    let ghost suffix = items_view(input@).skip(pos as int);
    if pos >= input.len() {
        return None;
    }
    assert(suffix[0] == input@[pos as int]@);
    let kind = match &input[pos] {
        ParseBufferItem::Token(Token::Keyword(Keyword::Graph)) => Some(AttrStmtKind::Graph),
        ParseBufferItem::Token(Token::Keyword(Keyword::Node)) => Some(AttrStmtKind::Node),
        ParseBufferItem::Token(Token::Keyword(Keyword::Edge)) => Some(AttrStmtKind::Edge),
        _ => None,
    };
    match kind {
        None => None,
        Some(kind) => {
            proof {
                assert(suffix.skip(1) =~= items_view(input@).skip(pos + 1));
            }
            match parse_attr_list_at(input, pos + 1) {
                Some((l, pos2)) => Some((AttrStmt { kind, attr_list: l }, pos2)),
                None => None,
            }
        },
    }
}

impl Parser<AttrStmt> for AttrStmt {
    /// Parses a default-attribute statement from the front of the buffer.
    /// The receiver only selects the parser; its own value is ignored.
    fn parse(&self, input: &[ParseBufferItem]) -> (r: Option<ParseResult<AttrStmt>>)
        ensures
            (match (r, spec_parse_attr_stmt(items_view(input@))) {
                (Some(pr), Some((sv, rem))) => pr.result@ == sv && items_view(pr.remaining@)
                    == rem,
                (None, None) => true,
                _ => false,
            }),
    {
        proof {
            assert(items_view(input@).skip(0) =~= items_view(input@));
        }
        match parse_attr_stmt_at(input, 0) {
            Some((s, pos2)) => Some(ParseResult { result: s, remaining: items_suffix(input, pos2) }),
            None => None,
        }
    }
}

} // verus!
