//! Top-level parsing over a token sequence: the non-backtracking head,
//! the statement list between the outer braces, and their combination
//! into a whole [`DotGraph`].

use crate::ast::{DotGraph, DotGraphV, ParserError, ParserErrV, Statement, StatementV, stmts_view};
use crate::combinator::{
    items_view, wrap_tokens, wrapped_tokens_view, ParseBufferItem, ParseBufferItemV,
};
use crate::parser_head::{parse_head, spec_parse_head};
use crate::parser_stmt::{parse_statements_at, spec_parse_statements};
use crate::tokenizer::{Delimiter, Token, TokenV};
use vstd::prelude::*;

verus! {

/// How deeply braces may nest inside a statement span.  Deeper input is
/// rejected with a structural error before the grammar runs, so the
/// grammar's recursion depth stays bounded.
pub const MAX_NESTING_DEPTH: usize = 128;

/// Does the running brace depth of the span ever exceed `limit`?  An
/// unmatched closing brace clamps at zero; the grammar rejects it later.
pub open spec fn spec_nesting_exceeds(toks: Seq<TokenV>, cur: nat, limit: nat) -> bool
    decreases toks.len(),
{
    if toks.len() == 0 {
        false
    } else {
        let cur2: nat = if toks[0] == TokenV::Delimiter(Delimiter::OpenCurlyBrace) {
            cur + 1
        } else if toks[0] == TokenV::Delimiter(Delimiter::ClosedCurlyBrace) && cur > 0 {
            (cur - 1) as nat
        } else {
            cur
        };
        ||| (toks[0] == TokenV::Delimiter(Delimiter::OpenCurlyBrace) && cur2 > limit)
        ||| spec_nesting_exceeds(toks.skip(1), cur2, limit)
    }
}

/// What the statement-list pass yields on a token span: its statements;
/// or a fatal error naming the opening brace that nests deeper than
/// [`MAX_NESTING_DEPTH`]; or — when tokens are left that no statement
/// alternative can consume — a fatal error naming the first leftover
/// token.
pub open spec fn spec_list_stmts(toks: Seq<TokenV>) -> Result<Seq<StatementV>, ParserErrV> {
    if spec_nesting_exceeds(toks, 0, MAX_NESTING_DEPTH as nat) {
        Err(ParserErrV { token: Some(TokenV::Delimiter(Delimiter::OpenCurlyBrace)) })
    } else {
        let (stmts, rem) = spec_parse_statements(wrapped_tokens_view(toks));
        if rem.len() == 0 {
            Ok(stmts)
        } else {
            Err(
                ParserErrV {
                    token: match rem[0] {
                        ParseBufferItemV::Token(t) => Some(t),
                        _ => None,
                    },
                },
            )
        }
    }
}

/// Exec scan for [`spec_nesting_exceeds`] over a token slice: the index
/// of the first opening brace that crosses the limit, if any.
fn nesting_exceeds(tokens: &[Token], limit: usize) -> (r: Option<usize>)
    ensures
        (match r {
            Some(i) => {
                &&& spec_nesting_exceeds(tokens@.map_values(|t: Token| t@), 0, limit as nat)
                &&& i < tokens@.len()
                &&& tokens@[i as int]@ == TokenV::Delimiter(Delimiter::OpenCurlyBrace)
            },
            None => !spec_nesting_exceeds(tokens@.map_values(|t: Token| t@), 0, limit as nat),
        }),
{
    let ghost tv = tokens@.map_values(|t: Token| t@);
    let mut depth: usize = 0;
    let mut i: usize = 0;
    proof {
        assert(tv.skip(0) =~= tv);
    }
    while i < tokens.len()
        invariant
            tv == tokens@.map_values(|t: Token| t@),
            i <= tv.len(),
            tv.len() == tokens@.len(),
            depth <= i,
            spec_nesting_exceeds(tv, 0, limit as nat) == spec_nesting_exceeds(
                tv.skip(i as int),
                depth as nat,
                limit as nat,
            ),
        decreases tv.len() - i,
    {
        let ghost rest = tv.skip(i as int);
        proof {
            assert(tv[i as int] == tokens@[i as int]@);
            assert(rest[0] == tv[i as int]);
            assert(rest.skip(1) =~= tv.skip(i + 1));
        }
        match &tokens[i] {
            Token::Delimiter(Delimiter::OpenCurlyBrace) => {
                depth = depth + 1;
                if depth > limit {
                    proof {
                        assert(spec_nesting_exceeds(rest, (depth - 1) as nat, limit as nat));
                    }
                    return Some(i);
                }
            },
            Token::Delimiter(Delimiter::ClosedCurlyBrace) => {
                if depth > 0 {
                    depth = depth - 1;
                }
            },
            _ => {},
        }
        i += 1;
    }
    proof {
        assert(tv.skip(i as int) =~= Seq::<TokenV>::empty());
    }
    None
}

/// Parses a token span as a statement list, failing on leftover tokens,
/// exactly as [`spec_list_stmts`] says.
pub fn list_stmts(tokens: &[Token]) -> (r: Result<Vec<Statement>, ParserError>)
    ensures
        (match (r, spec_list_stmts(tokens@.map_values(|t: Token| t@))) {
            (Ok(v), Ok(stmts)) => stmts_view(v@) == stmts,
            (Err(e), Err(ev)) => e@ == ev,
            _ => false,
        }),
{
    match nesting_exceeds(tokens, MAX_NESTING_DEPTH) {
        Some(i) => {
            return Err(
                ParserError {
                    token: Some(tokens[i].clone()),
                    reason: Some("Subgraphs nest deeper than the supported depth".to_owned()),
                },
            );
        },
        None => {},
    }
    let items = wrap_tokens(tokens);
    proof {
        assert(items_view(items@).skip(0) =~= items_view(items@));
    }
    let (stmts, pos) = parse_statements_at(items.as_slice(), 0);
    if pos == items.len() {
        Ok(stmts)
    } else {
        assert(items_view(items@).skip(pos as int)[0] == items@[pos as int]@);
        let token = match &items[pos] {
            ParseBufferItem::Token(t) => Some(t.clone()),
            _ => None,
        };
        Err(
            ParserError {
                token,
                reason: Some("No statement alternative matches at this token".to_owned()),
            },
        )
    }
}

/// The tokens of `toks` between `from` and `to`, as an owned vector.
fn tokens_slice(toks: &[Token], from: usize, to: usize) -> (r: Vec<Token>)
    requires
        from <= to <= toks@.len(),
    ensures
        r@ == toks@.subrange(from as int, to as int),
{
    let mut v: Vec<Token> = Vec::new();
    let mut i: usize = from;
    while i < to
        invariant
            from <= i <= to <= toks@.len(),
            v@ == toks@.subrange(from as int, i as int),
        decreases to - i,
    {
        let t = toks[i].clone();
        v.push(t);
        assert(v@ =~= toks@.subrange(from as int, i + 1));
        i += 1;
    }
    v
}

/// What the whole token-level parse yields: the head's findings combined
/// with the statements of the span strictly between the outer braces.
pub open spec fn spec_parse(toks: Seq<TokenV>) -> Result<DotGraphV, ParserErrV> {
    match spec_parse_head(toks) {
        Err(e) => Err(e),
        Ok((gt, strict, id, start)) => {
            match spec_list_stmts(toks.subrange(start, toks.len() - 1)) {
                Err(e) => Err(e),
                Ok(stmts) => Ok(
                    DotGraphV { graph_type: gt, strict_mode: strict, id, statements: stmts },
                ),
            }
        },
    }
}

/// Creates an AST from a list of tokens: the non-backtracking head first,
/// then the statement list over the tokens strictly between the outer
/// braces.  Returns exactly what [`spec_parse`] yields.
pub fn parse(tokens_vec: &[Token]) -> (r: Result<DotGraph, ParserError>)
    ensures
        (match (r, spec_parse(tokens_vec@.map_values(|t: Token| t@))) {
            (Ok(dg), Ok(dgv)) => dg@ == dgv,
            (Err(e), Err(ev)) => e@ == ev,
            _ => false,
        }),
{
    let ghost tv = tokens_vec@.map_values(|t: Token| t@);
    let mut dg = match parse_head(tokens_vec) {
        Ok(dg) => dg,
        Err(e) => {
            return Err(e);
        },
    };
    let start: usize = match (dg.strict_mode, &dg.id) {
        (true, Some(_)) => 4,
        (false, Some(_)) => 3,
        (true, None) => 3,
        (false, None) => 2,
    };
    proof {
        assert(spec_parse_head(tv) matches Ok((gt, strict, id, st)) && st == start);
    }
    let body = tokens_slice(tokens_vec, start, tokens_vec.len() - 1);
    proof {
        assert(body@.map_values(|t: Token| t@) =~= tv.subrange(start as int, tv.len() - 1));
    }
    match list_stmts(body.as_slice()) {
        Ok(stmts) => {
            dg.statements = stmts;
            Ok(dg)
        },
        Err(e) => Err(e),
    }
}

} // verus!
