//! A verified parser for the DOT graph-description language.
//!
//! Source text is tokenized into identifiers, keywords and delimiters, and
//! the token sequence is parsed by a small backtracking-combinator grammar
//! into an abstract syntax tree rooted at [`ast::DotGraph`].

pub mod ast;
pub mod combinator;
pub mod ident;
pub mod parser;
pub mod parser_a_list;
pub mod parser_attr_list;
pub mod parser_attribute;
pub mod parser_attribute_stmt;
pub mod parser_compass;
pub mod parser_head;
pub mod parser_node_id;
pub mod parser_port;
pub mod parser_stmt;
pub mod tokenizer;

use crate::ast::{DotGraph, DotGraphV, ParserError, ParserErrV};
use crate::tokenizer::{LexErrV, TokenizeError};
use vstd::prelude::*;

verus! {

/// Why a whole-document parse failed: in the lexical scan, or in the
/// grammar.
#[derive(Debug)]
pub enum DotError {
    Tokenize(TokenizeError),
    Parse(ParserError),
}

/// Mathematical value of a [`DotError`].
pub enum DotErrV {
    Tokenize(LexErrV),
    Parse(ParserErrV),
}

impl View for DotError {
    type V = DotErrV;

    open spec fn view(&self) -> DotErrV {
        match self {
            DotError::Tokenize(e) => DotErrV::Tokenize(e@),
            DotError::Parse(e) => DotErrV::Parse(e@),
        }
    }
}

/// What parsing a whole document yields: the tokens of the source run
/// through the grammar, or the first lexical or structural fault.
pub open spec fn spec_parse_dot(s: Seq<char>) -> Result<DotGraphV, DotErrV> {
    match tokenizer::spec_tokenize(s) {
        Err(e) => Err(DotErrV::Tokenize(e)),
        Ok(toks) => match parser::spec_parse(toks) {
            Ok(g) => Ok(g),
            Err(e) => Err(DotErrV::Parse(e)),
        },
    }
}

/// Parses one complete DOT document: tokenize, then parse the token
/// sequence.  Returns exactly what [`spec_parse_dot`] yields on the
/// source's characters.
pub fn parse(code: String) -> (r: Result<DotGraph, DotError>)
    ensures
        (match (r, spec_parse_dot(code@)) {
            (Ok(dg), Ok(dgv)) => dg@ == dgv,
            (Err(e), Err(ev)) => e@ == ev,
            _ => false,
        }),
{
    match tokenizer::tokenize(code) {
        Err(e) => Err(DotError::Tokenize(e)),
        Ok(toks) => {
            proof {
                assert(toks@.map_values(|t: tokenizer::Token| t@) =~= tokenizer::tokens_view(
                    toks@,
                ));
            }
            match parser::parse(toks.as_slice()) {
                Ok(dg) => Ok(dg),
                Err(e) => Err(DotError::Parse(e)),
            }
        },
    }
}

/// Whitespace between tokens never affects the parsed AST: inserting any
/// run of spaces and newlines at a point where the scanner is between
/// tokens — outside quotes with no pending escape or dash, either between
/// lexemes or directly after a lexeme that the next character (or the end
/// of the input) would flush anyway — leaves a successful parse's tree
/// unchanged, and a failing parse still fails.
pub proof fn lemma_whitespace_insensitive_ast(pre: Seq<char>, ws: Seq<char>, post: Seq<char>)
    requires
        forall|i: int| 0 <= i < ws.len() ==> ws[i] == ' ' || #[trigger] ws[i] == '\n',
        (match tokenizer::lex_run(pre, tokenizer::init_lex_state()) {
            Ok(st) => {
                &&& !st.in_quote
                &&& !st.escape
                &&& !st.pending_dash
                &&& (st.buf.len() == 0 || post.len() == 0 || tokenizer::is_flushing_char(post[0]))
            },
            Err(_) => false,
        }),
    ensures
        (match (spec_parse_dot(pre + post), spec_parse_dot(pre + ws + post)) {
            (Ok(g1), Ok(g2)) => g1 == g2,
            (Err(_), Err(_)) => true,
            _ => false,
        }),
{
    tokenizer::lemma_whitespace_insensitive(pre, ws, post);
}

/// Sum of two numbers, kept as the crate's smallest example of a contract.
pub fn add(left: u64, right: u64) -> (sum: u64)
    requires
        left + right <= u64::MAX,
    ensures
        sum == left + right,
{
    left + right
}

} // verus!
