//! The port parser: `':' compass` or `':' ID [':' compass]`.  A token
//! after the colon that spells a compass point is always read as one —
//! the compass interpretation wins over the bare-id interpretation — and
//! the trailing `':' compass` group is optional: when it does not match,
//! the port stops after the id and leaves the rest unconsumed.

use crate::ast::{Port, PortV};
use crate::combinator::{
    items_view, items_suffix, ParseBufferItem, ParseBufferItemV, ParseResult, Parser,
};
use crate::parser_compass::{compass_lookup, compass_of, match_compass, spec_match_compass};
use crate::tokenizer::{Delimiter, Token, TokenV};
use vstd::prelude::*;

verus! {

/// Is this item the given delimiter token?
pub open spec fn is_delim_item(it: ParseBufferItemV, d: Delimiter) -> bool {
    it == ParseBufferItemV::Token(TokenV::Delimiter(d))
}

/// Whether the items at positions 2 and 3 form a `':' compass` group.
pub open spec fn has_compass_continuation(input: Seq<ParseBufferItemV>) -> bool {
    &&& input.len() >= 4
    &&& is_delim_item(input[2], Delimiter::Colon)
    &&& match input[3] {
        ParseBufferItemV::Token(TokenV::Identifier(w4)) => compass_of(w4) is Some,
        _ => false,
    }
}

/// What the port parser yields.  After the leading colon, a compass word
/// wins; otherwise a bare identifier forms the port id, and a trailing
/// `':' compass` group is consumed only when it matches completely — on
/// no match the port is the two-item `':' ID` form and the rest of the
/// input is left unconsumed.
pub open spec fn spec_parse_port(input: Seq<ParseBufferItemV>) -> Option<
    (PortV, Seq<ParseBufferItemV>),
> {
    if input.len() < 2 {
        None
    } else if !is_delim_item(input[0], Delimiter::Colon) {
        None
    } else {
        match input[1] {
            ParseBufferItemV::Token(TokenV::Identifier(w)) => {
                if compass_of(w) is Some {
                    Some((PortV { id: None, compass: Some(compass_of(w)->Some_0) }, input.skip(2)))
                } else if has_compass_continuation(input) {
                    match input[3] {
                        ParseBufferItemV::Token(TokenV::Identifier(w4)) => Some(
                            (
                                PortV { id: Some(w), compass: Some(compass_of(w4)->Some_0) },
                                input.skip(4),
                            ),
                        ),
                        _ => None,
                    }
                } else {
                    Some((PortV { id: Some(w), compass: None }, input.skip(2)))
                }
            },
            _ => None,
        }
    }
}

/// Port parse at a position, mirroring [`spec_parse_port`] on the suffix.
pub fn parse_port_at(input: &[ParseBufferItem], pos: usize) -> (r: Option<(Port, usize)>)
    requires
        pos <= input@.len(),
    ensures
        (match (r, spec_parse_port(items_view(input@).skip(pos as int))) {
            (Some((p, pos2)), Some((pv, rem))) => {
                &&& p@ == pv
                &&& pos <= pos2 <= input@.len()
                &&& rem == items_view(input@).skip(pos2 as int)
            },
            (None, None) => true,
            _ => false,
        }),
{
    let ghost suffix = items_view(input@).skip(pos as int);
    if input.len() - pos < 2 {
        return None;
    }
    assert(suffix[0] == input@[pos as int]@);
    assert(suffix[1] == input@[pos as int + 1]@);
    let colon = match &input[pos] {
        ParseBufferItem::Token(Token::Delimiter(Delimiter::Colon)) => true,
        _ => false,
    };
    if !colon {
        return None;
    }
    match &input[pos + 1] {
        ParseBufferItem::Token(Token::Identifier(s)) => {
            let w = crate::tokenizer::chars_of(s.as_str());
            match compass_lookup(&w) {
                Some(c) => {
                    proof {
                        assert(suffix.skip(2) =~= items_view(input@).skip(pos + 2));
                    }
                    Some((Port { id: None, compass: Some(c) }, pos + 2))
                },
                None => {
                    // the `':' compass` continuation is consumed only when it
                    // matches completely
                    let continuation = if input.len() - pos >= 4 {
                        proof {
                            assert(suffix[2] == input@[pos as int + 2]@);
                            assert(suffix[3] == input@[pos as int + 3]@);
                        }
                        let third_colon = match &input[pos + 2] {
                            ParseBufferItem::Token(Token::Delimiter(Delimiter::Colon)) => true,
                            _ => false,
                        };
                        if third_colon {
                            match &input[pos + 3] {
                                ParseBufferItem::Token(Token::Identifier(s4)) => {
                                    let w4 = crate::tokenizer::chars_of(s4.as_str());
                                    compass_lookup(&w4)
                                },
                                _ => None,
                            }
                        } else {
                            None
                        }
                    } else {
                        None
                    };
                    match continuation {
                        Some(c4) => {
                            proof {
                                assert(suffix.skip(4) =~= items_view(input@).skip(pos + 4));
                            }
                            Some((Port { id: Some(s.clone()), compass: Some(c4) }, pos + 4))
                        },
                        None => {
                            proof {
                                assert(suffix.skip(2) =~= items_view(input@).skip(pos + 2));
                            }
                            Some((Port { id: Some(s.clone()), compass: None }, pos + 2))
                        },
                    }
                },
            }
        },
        _ => None,
    }
}

impl Parser<Port> for Port {
    /// Parses a port from the front of the buffer.  The receiver only
    /// selects the parser; its own value is ignored.
    fn parse(&self, input: &[ParseBufferItem]) -> (r: Option<ParseResult<Port>>)
        ensures
            (match (r, spec_parse_port(items_view(input@))) {
                (Some(pr), Some((pv, rem))) => pr.result@ == pv && items_view(pr.remaining@)
                    == rem,
                (None, None) => true,
                _ => false,
            }),
    {
        proof {
            assert(items_view(input@).skip(0) =~= items_view(input@));
        }
        match parse_port_at(input, 0) {
            Some((p, pos2)) => Some(ParseResult { result: p, remaining: items_suffix(input, pos2) }),
            None => None,
        }
    }
}

/// The compass reading always wins over the bare-id reading: a colon
/// followed by an identifier that spells a compass point parses to a port
/// with that compass and no id, never to a port with that word as id.
pub proof fn lemma_compass_beats_id(input: Seq<ParseBufferItemV>, w: Seq<char>)
    requires
        input.len() >= 2,
        is_delim_item(input[0], Delimiter::Colon),
        input[1] == ParseBufferItemV::Token(TokenV::Identifier(w)),
        compass_of(w) is Some,
    ensures
        spec_parse_port(input) == Some(
            (PortV { id: None, compass: Some(compass_of(w)->Some_0) }, input.skip(2)),
        ),
{
}

/// What [`match_port`] yields on a raw token slice: unlike the combinator,
/// it matches only a slice that is exactly `':' ID` or `':' ID ':' compass`
/// long, with the compass reading of the identifier again winning.
pub open spec fn spec_match_port(toks: Seq<TokenV>) -> Option<PortV> {
    if toks.len() < 2 {
        None
    } else if toks[0] != TokenV::Delimiter(Delimiter::Colon) {
        None
    } else if toks.len() == 2 {
        match spec_match_compass(toks[1]) {
            Some(c) => Some(PortV { id: None, compass: Some(c) }),
            None => match toks[1] {
                TokenV::Identifier(w) => Some(PortV { id: Some(w), compass: None }),
                _ => None,
            },
        }
    } else if toks.len() == 4 {
        match (toks[1], toks[2], spec_match_compass(toks[3])) {
            (TokenV::Identifier(w), TokenV::Delimiter(Delimiter::Colon), Some(c)) => Some(
                PortV { id: Some(w), compass: Some(c) },
            ),
            _ => None,
        }
    } else {
        None
    }
}

/// Reads a whole token slice as a port, accepting only the exact shapes
/// `':' ID`, `':' compass` and `':' ID ':' compass`.
pub fn match_port(tokens: &[Token]) -> (r: Option<Port>)
    ensures
        (match (r, spec_match_port(tokens@.map_values(|t: Token| t@))) {
            (Some(p), Some(pv)) => p@ == pv,
            (None, None) => true,
            _ => false,
        }),
{
    let ghost tv = tokens@.map_values(|t: Token| t@);
    if tokens.len() < 2 {
        return None;
    }
    assert(tv[0] == tokens@[0]@);
    assert(tv[1] == tokens@[1]@);
    let colon = match &tokens[0] {
        Token::Delimiter(Delimiter::Colon) => true,
        _ => false,
    };
    if !colon {
        return None;
    }
    if tokens.len() == 2 {
        match match_compass(&tokens[1]) {
            Some(c) => Some(Port { id: None, compass: Some(c) }),
            None => match &tokens[1] {
                Token::Identifier(s) => Some(Port { id: Some(s.clone()), compass: None }),
                _ => None,
            },
        }
    } else if tokens.len() == 4 {
        assert(tv[2] == tokens@[2]@);
        assert(tv[3] == tokens@[3]@);
        let third_colon = match &tokens[2] {
            Token::Delimiter(Delimiter::Colon) => true,
            _ => false,
        };
        if !third_colon {
            return None;
        }
        match (&tokens[1], match_compass(&tokens[3])) {
            (Token::Identifier(s), Some(c)) => Some(Port { id: Some(s.clone()), compass: Some(c) }),
            _ => None,
        }
    } else {
        None
    }
}

} // verus!
