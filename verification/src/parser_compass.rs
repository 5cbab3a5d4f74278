//! The compass-point parser: one identifier token naming one of the ten
//! compass values, spelled exactly in lowercase.

use crate::ast::Compass;
use crate::combinator::{
    items_view, items_suffix, ParseBufferItem, ParseBufferItemV, ParseResult, Parser,
};
use crate::tokenizer::{Token, TokenV};
use vstd::prelude::*;

verus! {

/// Which compass point, if any, an identifier word denotes.  Only the
/// exact lowercase spellings match.
pub open spec fn compass_of(w: Seq<char>) -> Option<Compass> {
    if w == seq!['n'] {
        Some(Compass::N)
    } else if w == seq!['n', 'e'] {
        Some(Compass::Ne)
    } else if w == seq!['e'] {
        Some(Compass::E)
    } else if w == seq!['s', 'e'] {
        Some(Compass::Se)
    } else if w == seq!['s'] {
        Some(Compass::S)
    } else if w == seq!['s', 'w'] {
        Some(Compass::Sw)
    } else if w == seq!['w'] {
        Some(Compass::W)
    } else if w == seq!['n', 'w'] {
        Some(Compass::Nw)
    } else if w == seq!['c'] {
        Some(Compass::C)
    } else if w == seq!['_'] {
        Some(Compass::Underscore)
    } else {
        None
    }
}

/// Exec lookup for [`compass_of`] over a character vector.
pub fn compass_lookup(w: &Vec<char>) -> (r: Option<Compass>)
    ensures
        r == compass_of(w@),
{
    if w.len() == 1 {
        let c = w[0];
        assert(w@ =~= seq![c]);
        if c == 'n' {
            Some(Compass::N)
        } else if c == 'e' {
            Some(Compass::E)
        } else if c == 's' {
            Some(Compass::S)
        } else if c == 'w' {
            Some(Compass::W)
        } else if c == 'c' {
            Some(Compass::C)
        } else if c == '_' {
            Some(Compass::Underscore)
        } else {
            None
        }
    } else if w.len() == 2 {
        let a = w[0];
        let b = w[1];
        assert(w@ =~= seq![a, b]);
        if a == 'n' && b == 'e' {
            Some(Compass::Ne)
        } else if a == 's' && b == 'e' {
            Some(Compass::Se)
        } else if a == 's' && b == 'w' {
            Some(Compass::Sw)
        } else if a == 'n' && b == 'w' {
            Some(Compass::Nw)
        } else {
            None
        }
    } else {
        None
    }
}

/// What the compass parser yields: the compass point named by a leading
/// identifier item, with that item consumed.
pub open spec fn spec_parse_compass(input: Seq<ParseBufferItemV>) -> Option<
    (Compass, Seq<ParseBufferItemV>),
> {
    if input.len() >= 1 {
        match input[0] {
            ParseBufferItemV::Token(TokenV::Identifier(w)) => match compass_of(w) {
                Some(c) => Some((c, input.skip(1))),
                None => None,
            },
            _ => None,
        }
    } else {
        None
    }
}

/// Compass parse at a position: yields the compass point and the next
/// position, mirroring [`spec_parse_compass`] on the suffix.
pub fn parse_compass_at(input: &[ParseBufferItem], pos: usize) -> (r: Option<(Compass, usize)>)
    requires
        pos <= input@.len(),
    ensures
        (match (r, spec_parse_compass(items_view(input@).skip(pos as int))) {
            (Some((c, pos2)), Some((cs, rem))) => {
                &&& c == cs
                &&& pos <= pos2 <= input@.len()
                &&& rem == items_view(input@).skip(pos2 as int)
            },
            (None, None) => true,
            _ => false,
        }),
{
    let ghost suffix = items_view(input@).skip(pos as int);
    if pos >= input.len() {
        return None;
    }
    assert(suffix[0] == input@[pos as int]@);
    match &input[pos] {
        ParseBufferItem::Token(Token::Identifier(s)) => {
            let w = crate::tokenizer::chars_of(s.as_str());
            match compass_lookup(&w) {
                Some(c) => {
                    proof {
                        assert(suffix.skip(1) =~= items_view(input@).skip(pos + 1));
                    }
                    Some((c, pos + 1))
                },
                None => None,
            }
        },
        _ => None,
    }
}

impl Parser<Compass> for Compass {
    /// Parses a compass point from the front of the buffer.  The receiver
    /// only selects the parser; its own value is ignored.
    fn parse(&self, input: &[ParseBufferItem]) -> (r: Option<ParseResult<Compass>>)
        ensures
            (match (r, spec_parse_compass(items_view(input@))) {
                (Some(pr), Some((c, rem))) => pr.result == c && items_view(pr.remaining@) == rem,
                (None, None) => true,
                _ => false,
            }),
    {
        proof {
            assert(items_view(input@).skip(0) =~= items_view(input@));
        }
        match parse_compass_at(input, 0) {
            Some((c, pos2)) => Some(
                ParseResult { result: c, remaining: items_suffix(input, pos2) },
            ),
            None => None,
        }
    }
}

/// Which compass point a raw token names, if any.
pub open spec fn spec_match_compass(t: TokenV) -> Option<Compass> {
    match t {
        TokenV::Identifier(w) => compass_of(w),
        _ => None,
    }
}

/// The compass point a token names: `Some` exactly for an identifier
/// spelling one of the ten lowercase compass values.
pub fn match_compass(token: &Token) -> (r: Option<Compass>)
    ensures
        r == spec_match_compass(token@),
{
    match token {
        Token::Identifier(s) => {
            let w = crate::tokenizer::chars_of(s.as_str());
            compass_lookup(&w)
        },
        _ => None,
    }
}

} // verus!
