//! The parser-combinator core: a parser consumes a prefix of a buffer of
//! items and either yields a value with the remaining items, or reports
//! "no match" — which is not an error, but the signal that lets
//! alternation try the next grammar alternative on the same input.

use crate::ast::{Compass, Port, PortV};
use crate::tokenizer::{Token, TokenV};
use vstd::prelude::*;

verus! {

/// A value produced by an inner parser.
#[derive(Debug, PartialEq)]
pub enum ParseOutput {
    Compass(Compass),
    Port(Port),
}

/// Mathematical value of a [`ParseOutput`].
pub enum ParseOutputV {
    Compass(Compass),
    Port(PortV),
}

impl View for ParseOutput {
    type V = ParseOutputV;

    open spec fn view(&self) -> ParseOutputV {
        match self {
            ParseOutput::Compass(c) => ParseOutputV::Compass(*c),
            ParseOutput::Port(p) => ParseOutputV::Port(p@),
        }
    }
}

impl Clone for ParseOutput {
    /// A cloned output equals the original.
    fn clone(&self) -> (res: Self)
        ensures
            res == *self,
    {
        match self {
            ParseOutput::Compass(c) => ParseOutput::Compass(*c),
            ParseOutput::Port(p) => ParseOutput::Port(p.clone()),
        }
    }
}

/// One element of a parse buffer: a raw token or an already-parsed value.
#[derive(Debug, PartialEq)]
pub enum ParseBufferItem {
    Token(Token),
    ParseOutput(ParseOutput),
}

/// Mathematical value of a [`ParseBufferItem`].
pub enum ParseBufferItemV {
    Token(TokenV),
    ParseOutput(ParseOutputV),
}

impl View for ParseBufferItem {
    type V = ParseBufferItemV;

    open spec fn view(&self) -> ParseBufferItemV {
        match self {
            ParseBufferItem::Token(t) => ParseBufferItemV::Token(t@),
            ParseBufferItem::ParseOutput(o) => ParseBufferItemV::ParseOutput(o@),
        }
    }
}

impl Clone for ParseBufferItem {
    /// A cloned buffer item equals the original.
    fn clone(&self) -> (res: Self)
        ensures
            res == *self,
    {
        match self {
            ParseBufferItem::Token(t) => ParseBufferItem::Token(t.clone()),
            ParseBufferItem::ParseOutput(o) => ParseBufferItem::ParseOutput(o.clone()),
        }
    }
}

/// View of an item sequence.
pub open spec fn items_view(s: Seq<ParseBufferItem>) -> Seq<ParseBufferItemV> {
    s.map_values(|b: ParseBufferItem| b@)
}

/// A successful parse: the parsed value and the items left over.
#[derive(Debug, Clone, PartialEq)]
pub struct ParseResult<T> {
    pub result: T,
    pub remaining: Vec<ParseBufferItem>,
}

/// A parser for values of type `T`: a pure function from a buffer to an
/// optional value-and-remainder.  `None` means "no match", never a fault.
pub trait Parser<T> {
    fn parse(&self, input: &[ParseBufferItem]) -> Option<ParseResult<T>>;
}

/// The items of `input` from position `pos` on, as an owned vector.
pub fn items_suffix(input: &[ParseBufferItem], pos: usize) -> (r: Vec<ParseBufferItem>)
    requires
        pos <= input@.len(),
    ensures
        r@ == input@.skip(pos as int),
        items_view(r@) == items_view(input@).skip(pos as int),
{
    let mut v: Vec<ParseBufferItem> = Vec::new();
    let mut i: usize = pos;
    while i < input.len()
        invariant
            pos <= i <= input@.len(),
            v@ == input@.subrange(pos as int, i as int),
        decreases input@.len() - i,
    {
        let item = input[i].clone();
        v.push(item);
        assert(v@ =~= input@.subrange(pos as int, i + 1));
        i += 1;
    }
    assert(v@ =~= input@.skip(pos as int));
    assert(items_view(v@) =~= items_view(input@).skip(pos as int));
    v
}

/// View of a token sequence wrapped as buffer items.
pub open spec fn wrapped_tokens_view(s: Seq<TokenV>) -> Seq<ParseBufferItemV> {
    s.map_values(|t: TokenV| ParseBufferItemV::Token(t))
}

/// Wraps raw tokens as parse-buffer items.
pub fn wrap_tokens(toks: &[Token]) -> (r: Vec<ParseBufferItem>)
    ensures
        items_view(r@) == wrapped_tokens_view(toks@.map_values(|t: Token| t@)),
        r@.len() == toks@.len(),
{
    let mut v: Vec<ParseBufferItem> = Vec::new();
    let mut i: usize = 0;
    while i < toks.len()
        invariant
            i <= toks@.len(),
            v@.len() == i,
            forall|j: int| 0 <= j < i ==> #[trigger] v@[j]@ == ParseBufferItemV::Token(toks@[j]@),
        decreases toks@.len() - i,
    {
        let t = toks[i].clone();
        v.push(ParseBufferItem::Token(t));
        i += 1;
    }
    assert(items_view(v@) =~= wrapped_tokens_view(toks@.map_values(|t: Token| t@)));
    v
}

} // verus!
