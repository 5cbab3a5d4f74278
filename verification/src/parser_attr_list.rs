//! The attribute-list parser: `'[' [a_list] ']' [attr_list]`.  The inner
//! list is optional, so `[]` is a valid empty group, and consecutive
//! bracket groups flatten into one ordered attribute list.

use crate::ast::{AList, AttrList, Attribute, AttributeV, attrs_view};
use crate::combinator::{
    items_view, items_suffix, ParseBufferItem, ParseBufferItemV, ParseResult, Parser,
};
use crate::parser_a_list::{lemma_a_list_consumes, parse_a_list_at, spec_parse_a_list};
use crate::parser_port::is_delim_item;
use crate::tokenizer::{Delimiter, Token};
use vstd::prelude::*;

verus! {

/// What the attribute-list parser yields: the attributes of one
/// `'[' [a_list] ']'` group — the inner list is optional, so `[]` is a
/// valid empty group — concatenated with those of any groups that follow
/// directly.
pub open spec fn spec_parse_attr_list(input: Seq<ParseBufferItemV>) -> Option<
    (Seq<AttributeV>, Seq<ParseBufferItemV>),
>
    decreases input.len(),
{
    if input.len() < 2 {
        None
    } else if !is_delim_item(input[0], Delimiter::OpenSquareBrace) {
        None
    } else {
        let (items, rem) = match spec_parse_a_list(input.skip(1)) {
            Some((items, rem)) => (items, rem),
            None => (Seq::<AttributeV>::empty(), input.skip(1)),
        };
        if rem.len() == 0 {
            None
        } else if !is_delim_item(rem[0], Delimiter::ClosedSquareBrace) {
            None
        } else {
            let rest = rem.skip(1);
            proof {
                // the group consumed at least `[` and `]`, so the recursion
                // is on a strictly shorter suffix
                lemma_a_list_consumes(input.skip(1));
            }
            match spec_parse_attr_list(rest) {
                None => Some((items, rest)),
                Some((items2, rem2)) => Some((items + items2, rem2)),
            }
        }
    }
}

/// A successful attribute list consumes at least its two brackets.
pub proof fn lemma_attr_list_consumes(input: Seq<ParseBufferItemV>)
    ensures
        (match spec_parse_attr_list(input) {
            Some((_, rem)) => rem.len() <= input.len() - 2,
            None => true,
        }),
    decreases input.len(),
{
    if input.len() >= 2 && is_delim_item(input[0], Delimiter::OpenSquareBrace) {
        lemma_a_list_consumes(input.skip(1));
        let rem = match spec_parse_a_list(input.skip(1)) {
            Some((items, rem)) => rem,
            None => input.skip(1),
        };
        if rem.len() > 0 && is_delim_item(rem[0], Delimiter::ClosedSquareBrace) {
            lemma_attr_list_consumes(rem.skip(1));
        }
    }
}

/// Consecutive bracket groups flatten, in source order: when one
/// `'[' a_list ']'` group is followed by input that itself parses as an
/// attribute list, the whole input parses as one attribute list holding
/// the group's attributes followed by the rest's.
pub proof fn lemma_attr_list_flattens(input: Seq<ParseBufferItemV>)
    requires
        input.len() >= 1,
        is_delim_item(input[0], Delimiter::OpenSquareBrace),
        spec_parse_a_list(input.skip(1)) is Some,
        ({
            let (_, rem) = spec_parse_a_list(input.skip(1))->Some_0;
            rem.len() >= 1 && is_delim_item(rem[0], Delimiter::ClosedSquareBrace)
        }),
        ({
            let (_, rem) = spec_parse_a_list(input.skip(1))->Some_0;
            spec_parse_attr_list(rem.skip(1)) is Some
        }),
    ensures
        ({
            let (group, rem) = spec_parse_a_list(input.skip(1))->Some_0;
            let (tail, rem2) = spec_parse_attr_list(rem.skip(1))->Some_0;
            spec_parse_attr_list(input) == Some((group + tail, rem2))
        }),
{
    lemma_a_list_consumes(input.skip(1));
}

/// Attribute-list parse at a position, mirroring [`spec_parse_attr_list`].
pub fn parse_attr_list_at(input: &[ParseBufferItem], pos: usize) -> (r: Option<(AttrList, usize)>)
    requires
        pos <= input@.len(),
    ensures
        (match (r, spec_parse_attr_list(items_view(input@).skip(pos as int))) {
            (Some((l, pos2)), Some((itemsv, rem))) => {
                &&& l@ == itemsv
                &&& pos <= pos2 <= input@.len()
                &&& rem == items_view(input@).skip(pos2 as int)
            },
            (None, None) => true,
            _ => false,
        }),
    decreases input@.len() - pos,
{
    let ghost suffix = items_view(input@).skip(pos as int);
    if input.len() - pos < 2 {
        return None;
    }
    assert(suffix[0] == input@[pos as int]@);
    let open = match &input[pos] {
        ParseBufferItem::Token(Token::Delimiter(Delimiter::OpenSquareBrace)) => true,
        _ => false,
    };
    if !open {
        return None;
    }
    proof {
        assert(suffix.skip(1) =~= items_view(input@).skip(pos + 1));
    }
    let (alist, mid) = match parse_a_list_at(input, pos + 1) {
        Some((alist, mid)) => (alist, mid),
        None => {
            let empty = AList { items: Vec::new() };
            assert(empty@ =~= Seq::<AttributeV>::empty());
            (empty, pos + 1)
        },
    };
    proof {
        lemma_a_list_consumes(suffix.skip(1));
    }
    if mid >= input.len() {
        return None;
    }
    assert(items_view(input@).skip(mid as int)[0] == input@[mid as int]@);
    let closed = match &input[mid] {
        ParseBufferItem::Token(Token::Delimiter(Delimiter::ClosedSquareBrace)) => true,
        _ => false,
    };
    if !closed {
        return None;
    }
    proof {
        assert(items_view(input@).skip(mid as int).skip(1) =~= items_view(input@).skip(mid + 1));
    }
    match parse_attr_list_at(input, mid + 1) {
        None => Some((AttrList { items: alist.items }, mid + 1)),
        Some((next, pos2)) => {
            let ghost first = alist@;
            let ghost second = next@;
            let mut items = alist.items;
            let mut tail = next.items;
            while tail.len() > 0
                invariant
                    attrs_view(items@) + attrs_view(tail@) == first + second,
                decreases tail@.len(),
            {
                let ghost pre_items = items@;
                let ghost pre_tail = tail@;
                let a = tail.remove(0);
                items.push(a);
                proof {
                    assert(attrs_view(items@) =~= attrs_view(pre_items).push(pre_tail[0]@));
                    assert(attrs_view(tail@) =~= attrs_view(pre_tail).drop_first());
                    assert(attrs_view(pre_items).push(attrs_view(pre_tail)[0]) + attrs_view(
                        pre_tail,
                    ).drop_first() =~= attrs_view(pre_items) + attrs_view(pre_tail));
                }
            }
            proof {
                assert(attrs_view(tail@) =~= Seq::<AttributeV>::empty());
                assert(attrs_view(items@) =~= attrs_view(items@) + attrs_view(tail@));
            }
            Some((AttrList { items }, pos2))
        },
    }
}

impl Parser<AttrList> for AttrList {
    /// Parses one or more bracket groups from the front of the buffer,
    /// flattening their attributes.  The receiver only selects the parser;
    /// its own value is ignored.
    fn parse(&self, input: &[ParseBufferItem]) -> (r: Option<ParseResult<AttrList>>)
        ensures
            (match (r, spec_parse_attr_list(items_view(input@))) {
                (Some(pr), Some((itemsv, rem))) => pr.result@ == itemsv && items_view(
                    pr.remaining@,
                ) == rem,
                (None, None) => true,
                _ => false,
            }),
    {
        proof {
            assert(items_view(input@).skip(0) =~= items_view(input@));
        }
        match parse_attr_list_at(input, 0) {
            Some((l, pos2)) => Some(ParseResult { result: l, remaining: items_suffix(input, pos2) }),
            None => None,
        }
    }
}

} // verus!
