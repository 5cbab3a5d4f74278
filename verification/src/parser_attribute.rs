//! The attribute parser: `ID '=' ID`.

use crate::ast::{Attribute, AttributeV};
use crate::combinator::{
    items_view, items_suffix, ParseBufferItem, ParseBufferItemV, ParseResult, Parser,
};
use crate::parser_port::is_delim_item;
use crate::tokenizer::{Delimiter, Token, TokenV};
use vstd::prelude::*;

verus! {

/// What the attribute parser yields: an identifier, an equals sign, and a
/// second identifier, all three consumed.
pub open spec fn spec_parse_attribute(input: Seq<ParseBufferItemV>) -> Option<
    (AttributeV, Seq<ParseBufferItemV>),
> {
    if input.len() >= 3 {
        match (input[0], input[2]) {
            (ParseBufferItemV::Token(TokenV::Identifier(l)), ParseBufferItemV::Token(
                TokenV::Identifier(r),
            )) => {
                if is_delim_item(input[1], Delimiter::Equal) {
                    Some((AttributeV { lhs: l, rhs: r }, input.skip(3)))
                } else {
                    None
                }
            },
            _ => None,
        }
    } else {
        None
    }
}

/// Attribute parse at a position, mirroring [`spec_parse_attribute`].
pub fn parse_attribute_at(input: &[ParseBufferItem], pos: usize) -> (r: Option<(Attribute, usize)>)
    requires
        pos <= input@.len(),
    ensures
        (match (r, spec_parse_attribute(items_view(input@).skip(pos as int))) {
            (Some((a, pos2)), Some((av, rem))) => {
                &&& a@ == av
                &&& pos <= pos2 <= input@.len()
                &&& rem == items_view(input@).skip(pos2 as int)
            },
            (None, None) => true,
            _ => false,
        }),
{
    let ghost suffix = items_view(input@).skip(pos as int);
    if input.len() - pos < 3 {
        return None;
    }
    assert(suffix[0] == input@[pos as int]@);
    assert(suffix[1] == input@[pos as int + 1]@);
    assert(suffix[2] == input@[pos as int + 2]@);
    let equal = match &input[pos + 1] {
        ParseBufferItem::Token(Token::Delimiter(Delimiter::Equal)) => true,
        _ => false,
    };
    match (&input[pos], &input[pos + 2]) {
        (ParseBufferItem::Token(Token::Identifier(l)), ParseBufferItem::Token(
            Token::Identifier(r),
        )) => {
            if equal {
                proof {
                    assert(suffix.skip(3) =~= items_view(input@).skip(pos + 3));
                }
                Some((Attribute { lhs: l.clone(), rhs: r.clone() }, pos + 3))
            } else {
                None
            }
        },
        _ => None,
    }
}

impl Parser<Attribute> for Attribute {
    /// Parses one attribute pair from the front of the buffer.  The
    /// receiver only selects the parser; its own value is ignored.
    fn parse(&self, input: &[ParseBufferItem]) -> (r: Option<ParseResult<Attribute>>)
        ensures
            (match (r, spec_parse_attribute(items_view(input@))) {
                (Some(pr), Some((av, rem))) => pr.result@ == av && items_view(pr.remaining@)
                    == rem,
                (None, None) => true,
                _ => false,
            }),
    {
        proof {
            assert(items_view(input@).skip(0) =~= items_view(input@));
        }
        match parse_attribute_at(input, 0) {
            Some((a, pos2)) => Some(ParseResult { result: a, remaining: items_suffix(input, pos2) }),
            None => None,
        }
    }
}

} // verus!
