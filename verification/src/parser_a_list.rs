//! The `a_list` parser: `ID '=' ID [(';'|',')] [a_list]`.  A separator
//! between attributes is optional; the list also continues when another
//! `ID '=' ID` follows directly.

use crate::ast::{AList, Attribute, AttributeV, attrs_view};
use crate::combinator::{
    items_view, items_suffix, ParseBufferItem, ParseBufferItemV, ParseResult, Parser,
};
use crate::parser_attribute::{parse_attribute_at, spec_parse_attribute};
use crate::parser_port::is_delim_item;
use crate::tokenizer::{Delimiter, Token, TokenV};
use vstd::prelude::*;

verus! {

/// What the `a_list` parser yields: one attribute, then — with or
/// without a `;` or `,` in between — whatever further attributes parse.
/// A separator never stops the list, and neither does its absence when
/// another `ID '=' ID` follows.
pub open spec fn spec_parse_a_list(input: Seq<ParseBufferItemV>) -> Option<
    (Seq<AttributeV>, Seq<ParseBufferItemV>),
>
    decreases input.len(),
{
    match spec_parse_attribute(input) {
        None => None,
        Some((a, rem3)) => {
            let cont = if input.len() >= 4 && (is_delim_item(input[3], Delimiter::Semicolon)
                || is_delim_item(input[3], Delimiter::Comma)) {
                input.skip(4)
            } else {
                input.skip(3)
            };
            match spec_parse_a_list(cont) {
                None => Some((seq![a], cont)),
                Some((items2, rem2)) => Some((seq![a] + items2, rem2)),
            }
        },
    }
}

/// A successful `a_list` consumes at least its first three items.
pub proof fn lemma_a_list_consumes(input: Seq<ParseBufferItemV>)
    ensures
        (match spec_parse_a_list(input) {
            Some((_, rem)) => rem.len() <= input.len() - 3,
            None => true,
        }),
    decreases input.len(),
{
    match spec_parse_attribute(input) {
        None => {},
        Some((a, rem3)) => {
            if input.len() >= 4 && (is_delim_item(input[3], Delimiter::Semicolon) || is_delim_item(
                input[3],
                Delimiter::Comma,
            )) {
                lemma_a_list_consumes(input.skip(4));
            } else {
                lemma_a_list_consumes(input.skip(3));
            }
        },
    }
}

/// `a_list` parse at a position, mirroring [`spec_parse_a_list`].
pub fn parse_a_list_at(input: &[ParseBufferItem], pos: usize) -> (r: Option<(AList, usize)>)
    requires
        pos <= input@.len(),
    ensures
        (match (r, spec_parse_a_list(items_view(input@).skip(pos as int))) {
            (Some((l, pos2)), Some((itemsv, rem))) => {
                &&& l@ == itemsv
                &&& pos <= pos2 <= input@.len()
                &&& rem == items_view(input@).skip(pos2 as int)
            },
            (None, None) => true,
            _ => false,
        }),
    decreases input@.len() - pos,
{
    let ghost suffix = items_view(input@).skip(pos as int);
    match parse_attribute_at(input, pos) {
        None => None,
        Some((attr, pos3)) => {
            proof {
                let full = items_view(input@);
                assert(spec_parse_attribute(suffix) matches Some((av, remv)) && remv == full.skip(
                    pos3 as int,
                ));
                assert(spec_parse_attribute(suffix)->Some_0.1 == suffix.skip(3));
                assert(full.skip(pos3 as int).len() == full.len() - pos3);
                assert(suffix.skip(3).len() == suffix.len() - 3);
                assert(pos3 == pos + 3);
            }
            let sep = if pos3 < input.len() {
                proof {
                    assert(suffix[3] == input@[pos3 as int]@);
                }
                match &input[pos3] {
                    ParseBufferItem::Token(Token::Delimiter(Delimiter::Semicolon)) => true,
                    ParseBufferItem::Token(Token::Delimiter(Delimiter::Comma)) => true,
                    _ => false,
                }
            } else {
                false
            };
            let cont = if sep {
                pos3 + 1
            } else {
                pos3
            };
            proof {
                if sep {
                    assert(suffix.skip(4) =~= items_view(input@).skip(pos + 4));
                } else {
                    assert(suffix.skip(3) =~= items_view(input@).skip(pos + 3));
                }
            }
            match parse_a_list_at(input, cont) {
                None => {
                    let ghost av = attr@;
                    let mut items: Vec<Attribute> = Vec::new();
                    items.push(attr);
                    assert(attrs_view(items@) =~= seq![av]);
                    Some((AList { items }, cont))
                },
                Some((rest, pos2)) => {
                    let mut rest = rest;
                    let ghost tail = rest@;
                    let ghost av = attr@;
                    rest.items.insert(0, attr);
                    assert(attrs_view(rest.items@) =~= seq![av] + tail);
                    Some((rest, pos2))
                },
            }
        },
    }
}

impl Parser<AList> for AList {
    /// Parses an attribute list body from the front of the buffer.  The
    /// receiver only selects the parser; its own value is ignored.
    fn parse(&self, input: &[ParseBufferItem]) -> (r: Option<ParseResult<AList>>)
        ensures
            (match (r, spec_parse_a_list(items_view(input@))) {
                (Some(pr), Some((itemsv, rem))) => pr.result@ == itemsv && items_view(
                    pr.remaining@,
                ) == rem,
                (None, None) => true,
                _ => false,
            }),
    {
        proof {
            assert(items_view(input@).skip(0) =~= items_view(input@));
        }
        match parse_a_list_at(input, 0) {
            Some((l, pos2)) => Some(ParseResult { result: l, remaining: items_suffix(input, pos2) }),
            None => None,
        }
    }
}

} // verus!
