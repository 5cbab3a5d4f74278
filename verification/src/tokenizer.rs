//! Lexical analysis: a single left-to-right scan of the source text that
//! produces identifier, keyword and delimiter tokens.
//!
//! The scanner is specified as a character-step state machine
//! ([`lex_step`]): the executable [`tokenize`] is proved to return exactly
//! what the machine computes, token for token, and to fail exactly where
//! the machine reports the first lexical fault.

use crate::ident::is_valid_id;
use vstd::prelude::*;

verus! {

/// Relies on `String::push`: appends the given character to the string.
pub assume_specification[ String::push ](s: &mut String, c: char)
    ensures
        final(s)@ == old(s)@.push(c),
;

/// The six DOT keywords, recognized case-insensitively.
#[derive(Debug, Clone, Copy, PartialEq, Eq, Structural)]
pub enum Keyword {
    Node,
    Edge,
    Graph,
    Digraph,
    SubGraph,
    Strict,
}

/// Punctuation tokens, including the two-character edge operators.
#[derive(Debug, Clone, Copy, PartialEq, Eq, Structural)]
pub enum Delimiter {
    Colon,
    Comma,
    Semicolon,
    OpenCurlyBrace,
    ClosedCurlyBrace,
    OpenSquareBrace,
    ClosedSquareBrace,
    Space,
    Equal,
    UndirectedEdge,
    DirectedEdge,
    DoubleQuote,
}

/// One lexical unit of a DOT document.
#[derive(Debug, PartialEq)]
pub enum Token {
    Identifier(String),
    Keyword(Keyword),
    Delimiter(Delimiter),
}

impl Clone for Token {
    /// A cloned token equals the original.
    fn clone(&self) -> (res: Self)
        ensures
            res == *self,
    {
        match self {
            Token::Identifier(s) => Token::Identifier(s.clone()),
            Token::Keyword(k) => Token::Keyword(*k),
            Token::Delimiter(d) => Token::Delimiter(*d),
        }
    }
}

/// Mathematical value of a [`Token`]: identifier text as a character sequence.
pub enum TokenV {
    Identifier(Seq<char>),
    Keyword(Keyword),
    Delimiter(Delimiter),
}

impl View for Token {
    type V = TokenV;

    open spec fn view(&self) -> TokenV {
        match self {
            Token::Identifier(s) => TokenV::Identifier(s@),
            Token::Keyword(k) => TokenV::Keyword(*k),
            Token::Delimiter(d) => TokenV::Delimiter(*d),
        }
    }
}

/// View of a token sequence.
pub open spec fn tokens_view(s: Seq<Token>) -> Seq<TokenV> {
    s.map_values(|t: Token| t@)
}

/// A positioned lexical error: the first character position at which the
/// scan could not continue, and the offending lexeme.
#[derive(Debug, Clone, PartialEq)]
pub struct TokenizeError {
    pub line: usize,
    pub col: usize,
    pub token: String,
    pub reason: Option<String>,
}

/// Mathematical value of a [`TokenizeError`]; the prose `reason` is
/// diagnostic only and carries no specified meaning.
pub struct LexErrV {
    pub line: nat,
    pub col: nat,
    pub token: Seq<char>,
}

impl View for TokenizeError {
    type V = LexErrV;

    open spec fn view(&self) -> LexErrV {
        LexErrV { line: self.line as nat, col: self.col as nat, token: self.token@ }
    }
}

/// Case-insensitive match of one character against a lowercase letter.
pub open spec fn eq_ci(c: char, l: char) -> bool {
    c == l || ('A' <= c && c <= 'Z' && c as u32 + 32 == l as u32)
}

/// Case-folded scalar value of a character: uppercase ASCII letters map to
/// their lowercase counterparts, all else is unchanged.
pub open spec fn fold_char(c: char) -> u32 {
    if 'A' <= c && c <= 'Z' {
        (c as u32 + 32) as u32
    } else {
        c as u32
    }
}

/// Case-folded value of a word.
pub open spec fn fold_word(w: Seq<char>) -> Seq<u32> {
    w.map_values(|c: char| fold_char(c))
}

/// Which keyword, if any, a buffered word denotes; the comparison is
/// case-insensitive.
pub open spec fn keyword_of(w: Seq<char>) -> Option<Keyword> {
    if w.len() == 5 && eq_ci(w[0], 'g') && eq_ci(w[1], 'r') && eq_ci(w[2], 'a') && eq_ci(w[3], 'p')
        && eq_ci(w[4], 'h') {
        Some(Keyword::Graph)
    } else if w.len() == 4 && eq_ci(w[0], 'n') && eq_ci(w[1], 'o') && eq_ci(w[2], 'd') && eq_ci(
        w[3],
        'e',
    ) {
        Some(Keyword::Node)
    } else if w.len() == 4 && eq_ci(w[0], 'e') && eq_ci(w[1], 'd') && eq_ci(w[2], 'g') && eq_ci(
        w[3],
        'e',
    ) {
        Some(Keyword::Edge)
    } else if w.len() == 7 && eq_ci(w[0], 'd') && eq_ci(w[1], 'i') && eq_ci(w[2], 'g') && eq_ci(
        w[3],
        'r',
    ) && eq_ci(w[4], 'a') && eq_ci(w[5], 'p') && eq_ci(w[6], 'h') {
        Some(Keyword::Digraph)
    } else if w.len() == 8 && eq_ci(w[0], 's') && eq_ci(w[1], 'u') && eq_ci(w[2], 'b') && eq_ci(
        w[3],
        'g',
    ) && eq_ci(w[4], 'r') && eq_ci(w[5], 'a') && eq_ci(w[6], 'p') && eq_ci(w[7], 'h') {
        Some(Keyword::SubGraph)
    } else if w.len() == 6 && eq_ci(w[0], 's') && eq_ci(w[1], 't') && eq_ci(w[2], 'r') && eq_ci(
        w[3],
        'i',
    ) && eq_ci(w[4], 'c') && eq_ci(w[5], 't') {
        Some(Keyword::Strict)
    } else {
        None
    }
}

/// Exec test for [`eq_ci`].
fn eq_ci_exec(c: char, l: char) -> (r: bool)
    ensures
        r == eq_ci(c, l),
{
    c == l || ('A' <= c && c <= 'Z' && c as u32 + 32 == l as u32)
}

/// Exec lookup for [`keyword_of`].
pub fn keyword_lookup(w: &Vec<char>) -> (r: Option<Keyword>)
    ensures
        r == keyword_of(w@),
{
    if w.len() == 5 && eq_ci_exec(w[0], 'g') && eq_ci_exec(w[1], 'r') && eq_ci_exec(w[2], 'a')
        && eq_ci_exec(w[3], 'p') && eq_ci_exec(w[4], 'h') {
        Some(Keyword::Graph)
    } else if w.len() == 4 && eq_ci_exec(w[0], 'n') && eq_ci_exec(w[1], 'o') && eq_ci_exec(
        w[2],
        'd',
    ) && eq_ci_exec(w[3], 'e') {
        Some(Keyword::Node)
    } else if w.len() == 4 && eq_ci_exec(w[0], 'e') && eq_ci_exec(w[1], 'd') && eq_ci_exec(
        w[2],
        'g',
    ) && eq_ci_exec(w[3], 'e') {
        Some(Keyword::Edge)
    } else if w.len() == 7 && eq_ci_exec(w[0], 'd') && eq_ci_exec(w[1], 'i') && eq_ci_exec(
        w[2],
        'g',
    ) && eq_ci_exec(w[3], 'r') && eq_ci_exec(w[4], 'a') && eq_ci_exec(w[5], 'p') && eq_ci_exec(
        w[6],
        'h',
    ) {
        Some(Keyword::Digraph)
    } else if w.len() == 8 && eq_ci_exec(w[0], 's') && eq_ci_exec(w[1], 'u') && eq_ci_exec(
        w[2],
        'b',
    ) && eq_ci_exec(w[3], 'g') && eq_ci_exec(w[4], 'r') && eq_ci_exec(w[5], 'a') && eq_ci_exec(
        w[6],
        'p',
    ) && eq_ci_exec(w[7], 'h') {
        Some(Keyword::SubGraph)
    } else if w.len() == 6 && eq_ci_exec(w[0], 's') && eq_ci_exec(w[1], 't') && eq_ci_exec(
        w[2],
        'r',
    ) && eq_ci_exec(w[3], 'i') && eq_ci_exec(w[4], 'c') && eq_ci_exec(w[5], 't') {
        Some(Keyword::Strict)
    } else {
        None
    }
}

/// Quoted identifiers lose their outer quotes when turned into a token.
pub open spec fn strip_quotes(w: Seq<char>) -> Seq<char> {
    if w.len() >= 2 && w[0] == '"' && w[w.len() - 1] == '"' {
        w.subrange(1, w.len() - 1)
    } else {
        w
    }
}

/// What a buffered word flushes to: no token for an empty buffer, a keyword
/// or identifier token for a well-formed word, or a lexical fault.
pub open spec fn spec_word_token(w: Seq<char>) -> Result<Option<TokenV>, ()> {
    if w.len() == 0 {
        Ok(None)
    } else if keyword_of(w) is Some {
        Ok(Some(TokenV::Keyword(keyword_of(w)->Some_0)))
    } else if is_valid_id(w) {
        Ok(Some(TokenV::Identifier(strip_quotes(w))))
    } else {
        Err(())
    }
}

/// The scanner's full state between characters.
pub struct LexState {
    /// Current line, counted from zero; a newline advances it.
    pub line: nat,
    /// Current column, counted from zero and reset by newlines.
    pub col: nat,
    /// Characters of the lexeme being accumulated.
    pub buf: Seq<char>,
    /// Inside a double-quoted string.
    pub in_quote: bool,
    /// A backslash escape is pending.
    pub escape: bool,
    /// A lone `-` was seen and must be completed by `-` or `>`.
    pub pending_dash: bool,
    /// Tokens emitted so far.
    pub toks: Seq<TokenV>,
}

/// The scanner's initial state.
pub open spec fn init_lex_state() -> LexState {
    LexState {
        line: 0,
        col: 0,
        buf: Seq::empty(),
        in_quote: false,
        escape: false,
        pending_dash: false,
        toks: Seq::empty(),
    }
}

/// Is `c` one of the single-character delimiters?
pub open spec fn is_simple_delim(c: char) -> bool {
    c == ':' || c == ',' || c == ';' || c == '[' || c == ']' || c == '{' || c == '}' || c == '='
}

/// Which delimiter token a single delimiter character denotes.
pub open spec fn delim_of(c: char) -> Delimiter {
    if c == ':' {
        Delimiter::Colon
    } else if c == ',' {
        Delimiter::Comma
    } else if c == ';' {
        Delimiter::Semicolon
    } else if c == '[' {
        Delimiter::OpenSquareBrace
    } else if c == ']' {
        Delimiter::ClosedSquareBrace
    } else if c == '{' {
        Delimiter::OpenCurlyBrace
    } else if c == '}' {
        Delimiter::ClosedCurlyBrace
    } else {
        Delimiter::Equal
    }
}

/// One scanner step.  The rules, in priority order: a pending lone `-` must
/// be completed; a pending escape consumes the character verbatim; a bare
/// backslash sets the escape flag; inside quotes everything but the closing
/// quote is buffered; a quote closes or opens quote mode, flushing the
/// buffer; delimiters and whitespace flush the buffer, whitespace emitting
/// nothing; a lone `-` waits for its second character; anything else is
/// buffered.
pub open spec fn lex_step(c: char, st: LexState) -> Result<LexState, LexErrV> {
    let col2 = (st.col + 1) as nat;
    if st.pending_dash {
        if c == '-' {
            Ok(
                LexState {
                    col: col2,
                    pending_dash: false,
                    toks: st.toks.push(TokenV::Delimiter(Delimiter::UndirectedEdge)),
                    ..st
                },
            )
        } else if c == '>' {
            Ok(
                LexState {
                    col: col2,
                    pending_dash: false,
                    toks: st.toks.push(TokenV::Delimiter(Delimiter::DirectedEdge)),
                    ..st
                },
            )
        } else {
            Err(LexErrV { line: st.line, col: col2, token: seq![c] })
        }
    } else if st.escape {
        Ok(LexState { col: col2, escape: false, buf: st.buf.push(c), ..st })
    } else if c == '\\' {
        Ok(LexState { col: col2, escape: true, buf: st.buf.push(c), ..st })
    } else if st.in_quote && c != '"' {
        Ok(LexState { col: col2, buf: st.buf.push(c), ..st })
    } else if c == '"' && st.in_quote {
        // closing quote: the whole quoted lexeme becomes one token
        let w = st.buf.push('"');
        match spec_word_token(w) {
            Ok(opt) => Ok(
                LexState {
                    col: col2,
                    in_quote: false,
                    buf: Seq::empty(),
                    toks: if opt is Some {
                        st.toks.push(opt->Some_0)
                    } else {
                        st.toks
                    },
                    ..st
                },
            ),
            Err(()) => Err(LexErrV { line: st.line, col: col2, token: w }),
        }
    } else if c == '"' {
        // opening quote: flush whatever lexeme was pending
        match spec_word_token(st.buf) {
            Ok(opt) => Ok(
                LexState {
                    col: col2,
                    in_quote: true,
                    buf: seq!['"'],
                    toks: if opt is Some {
                        st.toks.push(opt->Some_0)
                    } else {
                        st.toks
                    },
                    ..st
                },
            ),
            Err(()) => Err(LexErrV { line: st.line, col: col2, token: st.buf }),
        }
    } else if c == '\n' {
        // a newline advances the position counters before the flush, so a
        // fault in the flushed lexeme is reported at the new line's start
        match spec_word_token(st.buf) {
            Ok(opt) => Ok(
                LexState {
                    line: (st.line + 1) as nat,
                    col: 0,
                    buf: Seq::empty(),
                    toks: if opt is Some {
                        st.toks.push(opt->Some_0)
                    } else {
                        st.toks
                    },
                    ..st
                },
            ),
            Err(()) => Err(LexErrV { line: (st.line + 1) as nat, col: 0, token: st.buf }),
        }
    } else if c == ' ' || c == '-' || is_simple_delim(c) {
        // flush the pending lexeme, then handle the delimiter itself
        match spec_word_token(st.buf) {
            Ok(opt) => {
                let toks2 = if opt is Some {
                    st.toks.push(opt->Some_0)
                } else {
                    st.toks
                };
                if c == ' ' {
                    Ok(LexState { col: col2, buf: Seq::empty(), toks: toks2, ..st })
                } else if c == '-' {
                    Ok(
                        LexState {
                            col: col2,
                            buf: Seq::empty(),
                            pending_dash: true,
                            toks: toks2,
                            ..st
                        },
                    )
                } else {
                    Ok(
                        LexState {
                            col: col2,
                            buf: Seq::empty(),
                            toks: toks2.push(TokenV::Delimiter(delim_of(c))),
                            ..st
                        },
                    )
                }
            },
            Err(()) => Err(LexErrV { line: st.line, col: col2, token: st.buf }),
        }
    } else {
        Ok(LexState { col: col2, buf: st.buf.push(c), ..st })
    }
}

/// Run the scanner over the remaining characters.
pub open spec fn lex_run(s: Seq<char>, st: LexState) -> Result<LexState, LexErrV>
    decreases s.len(),
{
    if s.len() == 0 {
        Ok(st)
    } else {
        match lex_step(s[0], st) {
            Ok(st2) => lex_run(s.skip(1), st2),
            Err(e) => Err(e),
        }
    }
}

/// End of input: an open quote or a dangling `-` is a fault; otherwise the
/// final lexeme is flushed.
pub open spec fn lex_finish(st: LexState) -> Result<Seq<TokenV>, LexErrV> {
    if st.in_quote {
        Err(LexErrV { line: st.line, col: st.col, token: st.buf })
    } else if st.pending_dash {
        Err(LexErrV { line: st.line, col: st.col, token: seq!['-'] })
    } else {
        match spec_word_token(st.buf) {
            Ok(opt) => Ok(
                if opt is Some {
                    st.toks.push(opt->Some_0)
                } else {
                    st.toks
                },
            ),
            Err(()) => Err(LexErrV { line: st.line, col: st.col, token: st.buf }),
        }
    }
}

/// The tokens of a whole document, or its first lexical fault.
pub open spec fn spec_tokenize(s: Seq<char>) -> Result<Seq<TokenV>, LexErrV> {
    match lex_run(s, init_lex_state()) {
        Ok(st) => lex_finish(st),
        Err(e) => Err(e),
    }
}

/// The characters of a string slice, as a vector.
pub fn chars_of(s: &str) -> (r: Vec<char>)
    ensures
        r@ == s@,
{
    let n = s.unicode_len();
    let mut v: Vec<char> = Vec::new();
    let mut i: usize = 0;
    while i < n
        invariant
            i <= n,
            n == s@.len(),
            v@ == s@.take(i as int),
        decreases n - i,
    {
        let c = s.get_char(i);
        v.push(c);
        assert(v@ =~= s@.take(i + 1));
        i += 1;
    }
    assert(v@ =~= s@);
    v
}

/// A string holding the characters of `v` between `from` and `to`.
pub fn collect_string(v: &Vec<char>, from: usize, to: usize) -> (r: String)
    requires
        from <= to <= v@.len(),
    ensures
        r@ == v@.subrange(from as int, to as int),
{
    let mut s = String::new();
    let mut i: usize = from;
    while i < to
        invariant
            from <= i <= to <= v@.len(),
            s@ == v@.subrange(from as int, i as int),
        decreases to - i,
    {
        s.push(v[i]);
        assert(s@ =~= v@.subrange(from as int, i + 1));
        i += 1;
    }
    s
}

/// A string holding the one character `c`.
fn char_string(c: char) -> (r: String)
    ensures
        r@ == seq![c],
{
    let mut s = String::new();
    s.push(c);
    assert(s@ =~= seq![c]);
    s
}

/// Checks that a word is a well-formed identifier: a single ASCII character
/// must be alphanumeric; a longer word must match the alphabetic, numeral or
/// quoted identifier shape, and the empty quoted string is rejected.
pub fn is_proper_identifier(s: &str, line: usize, col: usize) -> (r: Result<(), TokenizeError>)
    ensures
        r is Ok <==> is_valid_id(s@),
        r matches Err(e) ==> e.line == line && e.col == col && e.token@ == s@,
{
    let w = chars_of(s);
    if w.len() == 1 && (w[0] as u32) < 0x80 {
        let c = w[0];
        if ('a' <= c && c <= 'z') || ('A' <= c && c <= 'Z') || ('0' <= c && c <= '9') {
            Ok(())
        } else {
            Err(
                TokenizeError {
                    line,
                    col,
                    token: collect_string(&w, 0, w.len()),
                    reason: Some("Invalid single character".to_owned()),
                },
            )
        }
    } else if w.len() == 2 && w[0] == '"' && w[1] == '"' {
        assert(w@ =~= seq!['"', '"']);
        Err(
            TokenizeError {
                line,
                col,
                token: collect_string(&w, 0, w.len()),
                reason: Some("Empty quotes".to_owned()),
            },
        )
    } else {
        assert(!(w@ =~= seq!['"', '"']));
        if crate::ident::check_alphabetic_id(&w) || crate::ident::check_numeral_id(&w)
            || crate::ident::check_quoted_id(&w) {
            Ok(())
        } else {
            Err(
                TokenizeError {
                    line,
                    col,
                    token: collect_string(&w, 0, w.len()),
                    reason: Some("Invalid identifier".to_owned()),
                },
            )
        }
    }
}

/// Turns a buffered lexeme into at most one token, as [`spec_word_token`]
/// says: nothing for an empty buffer, a keyword for a case-insensitive
/// keyword match, an identifier (outer quotes stripped) for a well-formed
/// identifier, and a positioned error otherwise.
pub fn chars_to_token(chars: Vec<char>, line: usize, col: usize) -> (r: Result<
    Option<Token>,
    TokenizeError,
>)
    ensures
        (match spec_word_token(chars@) {
            Ok(opt) => r matches Ok(o) && (match (o, opt) {
                (Some(t), Some(tv)) => t@ == tv,
                (None, None) => true,
                _ => false,
            }),
            Err(()) => r matches Err(e) && e.line == line && e.col == col && e.token@ == chars@,
        }),
{
    if chars.len() == 0 {
        return Ok(None);
    }
    match keyword_lookup(&chars) {
        Some(k) => Ok(Some(Token::Keyword(k))),
        None => {
            let word = collect_string(&chars, 0, chars.len());
            assert(word@ =~= chars@);
            match is_proper_identifier(word.as_str(), line, col) {
                Err(e) => Err(e),
                Ok(()) => {
                    if chars.len() >= 2 && chars[0] == '"' && chars[chars.len() - 1] == '"' {
                        let inner = collect_string(&chars, 1, chars.len() - 1);
                        Ok(Some(Token::Identifier(inner)))
                    } else {
                        Ok(Some(Token::Identifier(word)))
                    }
                },
            }
        },
    }
}

/// The scanner's working state, mirroring [`LexState`].
struct Lexer {
    line: usize,
    col: usize,
    buf: Vec<char>,
    in_quote: bool,
    escape: bool,
    pending_dash: bool,
    toks: Vec<Token>,
}

/// Mathematical value of the scanner's working state.
spec fn lexer_view(lx: Lexer) -> LexState {
    LexState {
        line: lx.line as nat,
        col: lx.col as nat,
        buf: lx.buf@,
        in_quote: lx.in_quote,
        escape: lx.escape,
        pending_dash: lx.pending_dash,
        toks: tokens_view(lx.toks@),
    }
}

impl Lexer {
    fn new() -> (r: Lexer)
        ensures
            lexer_view(r) == init_lex_state(),
    {
        let r = Lexer {
            line: 0,
            col: 0,
            buf: Vec::new(),
            in_quote: false,
            escape: false,
            pending_dash: false,
            toks: Vec::new(),
        };
        assert(lexer_view(r).buf =~= init_lex_state().buf);
        assert(lexer_view(r).toks =~= init_lex_state().toks);
        assert(lexer_view(r) =~= init_lex_state());
        r
    }

    /// Flush the buffered lexeme through [`chars_to_token`], reporting any
    /// fault at the given position.
    fn flush(&mut self, eline: usize, ecol: usize) -> (r: Result<(), TokenizeError>)
        ensures
            (match spec_word_token(lexer_view(*old(self)).buf) {
                Ok(opt) => r is Ok && lexer_view(*final(self)) == (LexState {
                    buf: Seq::empty(),
                    toks: if opt is Some {
                        lexer_view(*old(self)).toks.push(opt->Some_0)
                    } else {
                        lexer_view(*old(self)).toks
                    },
                    ..lexer_view(*old(self))
                }),
                Err(()) => r matches Err(e) && e@ == (LexErrV {
                    line: eline as nat,
                    col: ecol as nat,
                    token: lexer_view(*old(self)).buf,
                }),
            }),
    {
        let mut buf: Vec<char> = Vec::new();
        core::mem::swap(&mut buf, &mut self.buf);
        match chars_to_token(buf, eline, ecol) {
            Ok(opt) => {
                match opt {
                    Some(t) => {
                        let ghost pre = self.toks@;
                        self.toks.push(t);
                        assert(tokens_view(self.toks@) =~= tokens_view(pre).push(t@));
                    },
                    None => {},
                }
                assert(lexer_view(*final(self)).buf =~= Seq::<char>::empty());
                Ok(())
            },
            Err(e) => Err(e),
        }
    }
}

/// Scans a whole DOT document into its token sequence, or reports the first
/// lexical fault with its position.  The result is exactly what the
/// specification scanner [`spec_tokenize`] yields on the same characters.
pub fn tokenize(code: String) -> (r: Result<Vec<Token>, TokenizeError>)
    ensures
        (match spec_tokenize(code@) {
            Ok(stoks) => r matches Ok(toks) && tokens_view(toks@) == stoks,
            Err(se) => r matches Err(e) && e@ == se,
        }),
{
    let chars = chars_of(code.as_str());
    let n = chars.len();
    let mut lx = Lexer::new();
    let mut i: usize = 0;
    proof {
        assert(code@.skip(0) =~= code@);
    }
    while i < n
        invariant
            i <= n,
            n == chars@.len(),
            chars@ == code@,
            lx.col <= i,
            lx.line <= i,
            lex_run(code@, init_lex_state()) == lex_run(code@.skip(i as int), lexer_view(lx)),
        decreases n - i,
    {
        let ghost pre = lexer_view(lx);
        let ghost rest = code@.skip(i as int);
        proof {
            assert(rest.len() > 0);
            assert(rest[0] == code@[i as int]);
            assert(rest.skip(1) =~= code@.skip(i + 1));
        }
        let c = chars[i];
        if lx.pending_dash {
            if c == '-' {
                lx.col = lx.col + 1;
                lx.pending_dash = false;
                let ghost tp = lx.toks@;
                lx.toks.push(Token::Delimiter(Delimiter::UndirectedEdge));
                proof {
                    assert(tokens_view(lx.toks@) =~= tokens_view(tp).push(
                        TokenV::Delimiter(Delimiter::UndirectedEdge),
                    ));
                    assert(lex_step(c, pre) == Ok::<LexState, LexErrV>(lexer_view(lx)));
                }
            } else if c == '>' {
                lx.col = lx.col + 1;
                lx.pending_dash = false;
                let ghost tp = lx.toks@;
                lx.toks.push(Token::Delimiter(Delimiter::DirectedEdge));
                proof {
                    assert(tokens_view(lx.toks@) =~= tokens_view(tp).push(
                        TokenV::Delimiter(Delimiter::DirectedEdge),
                    ));
                    assert(lex_step(c, pre) == Ok::<LexState, LexErrV>(lexer_view(lx)));
                }
            } else {
                proof {
                    assert(lex_step(c, pre) matches Err(_));
                }
                return Err(
                    TokenizeError {
                        line: lx.line,
                        col: lx.col + 1,
                        token: char_string(c),
                        reason: Some("Invalid edge, expected - or >".to_owned()),
                    },
                );
            }
        } else if lx.escape {
            lx.col = lx.col + 1;
            lx.escape = false;
            lx.buf.push(c);
            proof {
                assert(lex_step(c, pre) == Ok::<LexState, LexErrV>(lexer_view(lx)));
            }
        } else if c == '\\' {
            lx.col = lx.col + 1;
            lx.escape = true;
            lx.buf.push(c);
            proof {
                assert(lex_step(c, pre) == Ok::<LexState, LexErrV>(lexer_view(lx)));
            }
        } else if lx.in_quote && c != '"' {
            lx.col = lx.col + 1;
            lx.buf.push(c);
            proof {
                assert(lex_step(c, pre) == Ok::<LexState, LexErrV>(lexer_view(lx)));
            }
        } else if c == '"' && lx.in_quote {
            lx.buf.push('"');
            match lx.flush(lx.line, lx.col + 1) {
                Ok(()) => {},
                Err(e) => {
                    proof {
                        assert(lex_step(c, pre) matches Err(se) && se == e@);
                    }
                    return Err(e);
                },
            }
            lx.col = lx.col + 1;
            lx.in_quote = false;
            proof {
                assert(lex_step(c, pre) == Ok::<LexState, LexErrV>(lexer_view(lx)));
            }
        } else if c == '"' {
            match lx.flush(lx.line, lx.col + 1) {
                Ok(()) => {},
                Err(e) => {
                    proof {
                        assert(lex_step(c, pre) matches Err(se) && se == e@);
                    }
                    return Err(e);
                },
            }
            lx.col = lx.col + 1;
            lx.in_quote = true;
            lx.buf.push('"');
            proof {
                assert(lexer_view(lx).buf =~= seq!['"']);
                assert(lex_step(c, pre) == Ok::<LexState, LexErrV>(lexer_view(lx)));
            }
        } else if c == '\n' {
            match lx.flush(lx.line + 1, 0) {
                Ok(()) => {},
                Err(e) => {
                    proof {
                        assert(lex_step(c, pre) matches Err(se) && se == e@);
                    }
                    return Err(e);
                },
            }
            lx.line = lx.line + 1;
            lx.col = 0;
            proof {
                assert(lex_step(c, pre) == Ok::<LexState, LexErrV>(lexer_view(lx)));
            }
        } else if c == ' ' || c == '-' || c == ':' || c == ',' || c == ';' || c == '[' || c == ']'
            || c == '{' || c == '}' || c == '=' {
            match lx.flush(lx.line, lx.col + 1) {
                Ok(()) => {},
                Err(e) => {
                    proof {
                        assert(lex_step(c, pre) matches Err(se) && se == e@);
                    }
                    return Err(e);
                },
            }
            if c == ' ' {
                lx.col = lx.col + 1;
            } else if c == '-' {
                lx.col = lx.col + 1;
                lx.pending_dash = true;
            } else {
                lx.col = lx.col + 1;
                let ghost tp = lx.toks@;
                let d = if c == ':' {
                    Delimiter::Colon
                } else if c == ',' {
                    Delimiter::Comma
                } else if c == ';' {
                    Delimiter::Semicolon
                } else if c == '[' {
                    Delimiter::OpenSquareBrace
                } else if c == ']' {
                    Delimiter::ClosedSquareBrace
                } else if c == '{' {
                    Delimiter::OpenCurlyBrace
                } else if c == '}' {
                    Delimiter::ClosedCurlyBrace
                } else {
                    Delimiter::Equal
                };
                lx.toks.push(Token::Delimiter(d));
                proof {
                    assert(tokens_view(lx.toks@) =~= tokens_view(tp).push(TokenV::Delimiter(d)));
                }
            }
            proof {
                assert(lex_step(c, pre) == Ok::<LexState, LexErrV>(lexer_view(lx)));
            }
        } else {
            lx.col = lx.col + 1;
            lx.buf.push(c);
            proof {
                assert(lex_step(c, pre) == Ok::<LexState, LexErrV>(lexer_view(lx)));
            }
        }
        proof {
            assert(lex_run(rest, pre) == lex_run(code@.skip(i + 1), lexer_view(lx)));
        }
        i += 1;
    }
    proof {
        assert(code@.skip(i as int) =~= Seq::<char>::empty());
        assert(lex_run(code@, init_lex_state()) == Ok::<LexState, LexErrV>(lexer_view(lx)));
    }
    // end of input
    let ghost fin = lexer_view(lx);
    if lx.in_quote {
        let mut b: Vec<char> = Vec::new();
        core::mem::swap(&mut b, &mut lx.buf);
        let tok = collect_string(&b, 0, b.len());
        proof {
            assert(tok@ =~= fin.buf);
        }
        return Err(
            TokenizeError {
                line: lx.line,
                col: lx.col,
                token: tok,
                reason: Some("Unterminated quoted string".to_owned()),
            },
        );
    }
    if lx.pending_dash {
        return Err(
            TokenizeError {
                line: lx.line,
                col: lx.col,
                token: char_string('-'),
                reason: Some("Invalid edge, expected - or >".to_owned()),
            },
        );
    }
    let mut b: Vec<char> = Vec::new();
    core::mem::swap(&mut b, &mut lx.buf);
    match chars_to_token(b, lx.line, lx.col) {
        Err(e) => {
            proof {
                assert(lex_finish(fin) matches Err(se) && se == e@);
            }
            Err(e)
        },
        Ok(opt) => {
            match opt {
                Some(t) => {
                    let ghost tp = lx.toks@;
                    lx.toks.push(t);
                    proof {
                        assert(tokens_view(lx.toks@) =~= tokens_view(tp).push(t@));
                    }
                },
                None => {},
            }
            proof {
                assert(lex_finish(fin) == Ok::<Seq<TokenV>, LexErrV>(tokens_view(lx.toks@)));
            }
            Ok(lx.toks)
        },
    }
}

} // verus!

// The laws below state lexical properties of the scanner as a whole.

verus! {

/// Case folding decides [`eq_ci`]: two characters with the same folded
/// value match the same lowercase letters.
proof fn lemma_eq_ci_fold(c1: char, c2: char, l: char)
    requires
        fold_char(c1) == fold_char(c2),
        'a' <= l && l <= 'z',
    ensures
        eq_ci(c1, l) == eq_ci(c2, l),
{
}

/// Keyword recognition is case-insensitive: words with the same
/// case-folded characters denote the same keyword, or none.
pub proof fn lemma_keyword_case_insensitive(w1: Seq<char>, w2: Seq<char>)
    requires
        fold_word(w1) == fold_word(w2),
    ensures
        keyword_of(w1) == keyword_of(w2),
{
    assert(fold_word(w1).len() == w1.len());
    assert(fold_word(w2).len() == w2.len());
    assert forall|i: int| 0 <= i < w1.len() implies fold_char(w1[i]) == fold_char(
        #[trigger] w2[i],
    ) by {
        assert(fold_word(w1)[i] == fold_char(w1[i]));
        assert(fold_word(w2)[i] == fold_char(w2[i]));
    }
    assert forall|i: int, l: char|
        #![trigger eq_ci(w1[i], l), eq_ci(w2[i], l)]
        0 <= i < w1.len() && 'a' <= l && l <= 'z' implies eq_ci(w1[i], l) == eq_ci(w2[i], l) by {
        lemma_eq_ci_fold(w1[i], w2[i], l);
    }
}

/// The scanner states that matter for the token stream: everything but
/// the line and column counters, which only position error reports.
pub open spec fn eq_mod_pos(a: LexState, b: LexState) -> bool {
    &&& a.buf == b.buf
    &&& a.in_quote == b.in_quote
    &&& a.escape == b.escape
    &&& a.pending_dash == b.pending_dash
    &&& a.toks == b.toks
}

/// A neutral scanner state: between tokens, outside quotes, with no
/// pending escape or dash.
pub open spec fn neutral_state(st: LexState) -> bool {
    &&& !st.in_quote
    &&& !st.escape
    &&& !st.pending_dash
    &&& st.buf.len() == 0
}

/// The token stream does not depend on line or column counters: scans
/// from states that differ only in position succeed together and emit the
/// same tokens.
pub proof fn lemma_lex_run_position_independent(s: Seq<char>, st1: LexState, st2: LexState)
    requires
        eq_mod_pos(st1, st2),
    ensures
        (match (lex_run(s, st1), lex_run(s, st2)) {
            (Ok(r1), Ok(r2)) => eq_mod_pos(r1, r2),
            (Err(_), Err(_)) => true,
            _ => false,
        }),
    decreases s.len(),
{
    if s.len() > 0 {
        match (lex_step(s[0], st1), lex_step(s[0], st2)) {
            (Ok(m1), Ok(m2)) => {
                lemma_lex_run_position_independent(s.skip(1), m1, m2);
            },
            _ => {},
        }
    }
}

/// Scanning a concatenation scans the first part, then the second from
/// where the first left off.
pub proof fn lemma_lex_run_append(a: Seq<char>, b: Seq<char>, st: LexState)
    ensures
        lex_run(a + b, st) == (match lex_run(a, st) {
            Ok(m) => lex_run(b, m),
            Err(e) => Err::<LexState, LexErrV>(e),
        }),
    decreases a.len(),
{
    if a.len() == 0 {
        assert(a + b =~= b);
    } else {
        assert((a + b)[0] == a[0]);
        match lex_step(a[0], st) {
            Ok(m) => {
                assert((a + b).skip(1) =~= a.skip(1) + b);
                lemma_lex_run_append(a.skip(1), b, m);
            },
            Err(e) => {
                assert(lex_run(a + b, st) == Err::<LexState, LexErrV>(e));
            },
        }
    }
}

/// Whitespace scanned from a neutral state is discarded: the state keeps
/// its buffer, flags and tokens, and stays neutral.
proof fn lemma_ws_run(ws: Seq<char>, st: LexState)
    requires
        neutral_state(st),
        forall|i: int| 0 <= i < ws.len() ==> ws[i] == ' ' || #[trigger] ws[i] == '\n',
    ensures
        (match lex_run(ws, st) {
            Ok(r) => eq_mod_pos(r, st) && neutral_state(r),
            Err(_) => false,
        }),
    decreases ws.len(),
{
    if ws.len() > 0 {
        assert(ws[0] == ' ' || ws[0] == '\n');
        assert(Seq::<char>::empty() =~= st.buf);
        let st2 = lex_step(ws[0], st)->Ok_0;
        assert(eq_mod_pos(st2, st) && neutral_state(st2));
        assert(forall|i: int|
            0 <= i < ws.skip(1).len() ==> ws.skip(1)[i] == ' ' || #[trigger] ws.skip(1)[i] == '\n');
        lemma_ws_run(ws.skip(1), st2);
        let r2 = lex_run(ws.skip(1), st2)->Ok_0;
        assert(eq_mod_pos(r2, st));
    }
}

/// End-of-input handling does not depend on position either.
proof fn lemma_lex_finish_position_independent(a: LexState, b: LexState)
    requires
        eq_mod_pos(a, b),
    ensures
        (match (lex_finish(a), lex_finish(b)) {
            (Ok(t1), Ok(t2)) => t1 == t2,
            (Err(_), Err(_)) => true,
            _ => false,
        }),
{
}

/// One scanner step from states that differ only in position: both fault
/// together, or both succeed with states that again differ only in
/// position.
proof fn lemma_lex_step_position_independent(c: char, a: LexState, b: LexState)
    requires
        eq_mod_pos(a, b),
    ensures
        (match (lex_step(c, a), lex_step(c, b)) {
            (Ok(r1), Ok(r2)) => eq_mod_pos(r1, r2),
            (Err(_), Err(_)) => true,
            _ => false,
        }),
{
}

/// Is `c` a character that flushes the pending lexeme: whitespace, a
/// quote, a lone `-`, or a single-character delimiter?
pub open spec fn is_flushing_char(c: char) -> bool {
    c == ' ' || c == '\n' || c == '"' || c == '-' || is_simple_delim(c)
}

/// The state after the pending lexeme has been flushed into the token
/// stream (meaningful when the lexeme is well formed).
pub open spec fn flush_of(st: LexState) -> LexState {
    LexState {
        buf: Seq::empty(),
        toks: match spec_word_token(st.buf) {
            Ok(Some(t)) => st.toks.push(t),
            _ => st.toks,
        },
        ..st
    }
}

/// A flushing character reads the same whether the pending lexeme is
/// still in the buffer or was already flushed: a malformed lexeme faults
/// either way, and a well-formed one leaves states that differ only in
/// position.
proof fn lemma_flush_step(c: char, st: LexState)
    requires
        !st.in_quote,
        !st.escape,
        !st.pending_dash,
        is_flushing_char(c),
    ensures
        spec_word_token(st.buf) is Err ==> lex_step(c, st) is Err,
        spec_word_token(st.buf) is Ok ==> (match (lex_step(c, st), lex_step(c, flush_of(st))) {
            (Ok(r1), Ok(r2)) => eq_mod_pos(r1, r2),
            _ => false,
        }),
{
    if spec_word_token(st.buf) is Ok {
        assert(spec_word_token(flush_of(st).buf) == Ok::<Option<TokenV>, ()>(None));
    }
}

/// End-of-input reads the same whether the pending lexeme is still in
/// the buffer or was already flushed.
proof fn lemma_flush_finish(st: LexState)
    requires
        !st.in_quote,
        !st.escape,
        !st.pending_dash,
    ensures
        spec_word_token(st.buf) is Err ==> lex_finish(st) is Err,
        spec_word_token(st.buf) is Ok ==> lex_finish(st) == Ok::<Seq<TokenV>, LexErrV>(
            flush_of(st).toks,
        ),
{
}

/// Whitespace between tokens never affects the token stream: inserting
/// any run of spaces and newlines at a point where the scanner is
/// outside quotes with no pending escape or dash — either between
/// lexemes, or directly after a lexeme whose next character (or the end
/// of the input) would flush it anyway — leaves a successful scan's
/// tokens unchanged, and a failing scan still fails.
pub proof fn lemma_whitespace_insensitive(pre: Seq<char>, ws: Seq<char>, post: Seq<char>)
    requires
        forall|i: int| 0 <= i < ws.len() ==> ws[i] == ' ' || #[trigger] ws[i] == '\n',
        (match lex_run(pre, init_lex_state()) {
            Ok(st) => {
                &&& !st.in_quote
                &&& !st.escape
                &&& !st.pending_dash
                &&& (st.buf.len() == 0 || post.len() == 0 || is_flushing_char(post[0]))
            },
            Err(_) => false,
        }),
    ensures
        (match (spec_tokenize(pre + post), spec_tokenize(pre + ws + post)) {
            (Ok(t1), Ok(t2)) => t1 == t2,
            (Err(_), Err(_)) => true,
            _ => false,
        }),
{
    if ws.len() == 0 {
        assert(pre + ws + post =~= pre + post);
        return ;
    }
    let st = lex_run(pre, init_lex_state())->Ok_0;
    lemma_lex_run_append(pre, post, init_lex_state());
    lemma_lex_run_append(pre, ws + post, init_lex_state());
    assert(pre + ws + post =~= pre + (ws + post));
    lemma_lex_run_append(ws, post, st);
    if st.buf.len() == 0 {
        // between lexemes: the whitespace is discarded outright
        lemma_ws_run(ws, st);
        let st2 = lex_run(ws, st)->Ok_0;
        lemma_lex_run_position_independent(post, st, st2);
        match (lex_run(post, st), lex_run(post, st2)) {
            (Ok(f1), Ok(f2)) => {
                lemma_lex_finish_position_independent(f1, f2);
            },
            _ => {},
        }
    } else {
        // directly after a lexeme: the first whitespace character flushes
        // it, where without the insertion the next character (or the end
        // of the input) would have
        assert(ws[0] == ' ' || ws[0] == '\n');
        if spec_word_token(st.buf) is Err {
            assert(lex_step(ws[0], st) is Err);
            assert(lex_run(ws, st) is Err);
            if post.len() == 0 {
                lemma_flush_finish(st);
                assert(lex_run(post, st) == Ok::<LexState, LexErrV>(st));
            } else {
                lemma_flush_step(post[0], st);
                assert(lex_run(post, st) is Err);
            }
        } else {
            let st1 = lex_step(ws[0], st)->Ok_0;
            assert(eq_mod_pos(st1, flush_of(st)) && neutral_state(st1));
            assert(forall|i: int|
                0 <= i < ws.skip(1).len() ==> ws.skip(1)[i] == ' ' || #[trigger] ws.skip(1)[i]
                    == '\n');
            lemma_ws_run(ws.skip(1), st1);
            let st2 = lex_run(ws.skip(1), st1)->Ok_0;
            assert(eq_mod_pos(st2, flush_of(st)) && neutral_state(st2));
            assert(lex_run(ws, st) == lex_run(ws.skip(1), st1));
            if post.len() == 0 {
                lemma_flush_finish(st);
                assert(lex_run(post, st) == Ok::<LexState, LexErrV>(st));
                assert(lex_run(post, st2) == Ok::<LexState, LexErrV>(st2));
                assert(lex_finish(st2) == Ok::<Seq<TokenV>, LexErrV>(st2.toks));
            } else {
                lemma_flush_step(post[0], st);
                let sta = lex_step(post[0], st)->Ok_0;
                let stf = lex_step(post[0], flush_of(st))->Ok_0;
                lemma_lex_step_position_independent(post[0], st2, flush_of(st));
                let stb = lex_step(post[0], st2)->Ok_0;
                assert(eq_mod_pos(sta, stb));
                assert(lex_run(post, st) == lex_run(post.skip(1), sta));
                assert(lex_run(post, st2) == lex_run(post.skip(1), stb));
                lemma_lex_run_position_independent(post.skip(1), sta, stb);
                match (lex_run(post.skip(1), sta), lex_run(post.skip(1), stb)) {
                    (Ok(f1), Ok(f2)) => {
                        lemma_lex_finish_position_independent(f1, f2);
                    },
                    _ => {},
                }
            }
        }
    }
}

/// A lone `-` must be completed by `-` or `>`: from a state with a
/// pending dash, a scan whose next character is neither — or that ends —
/// is a fatal error.
pub proof fn lemma_dangling_dash(s: Seq<char>, st: LexState)
    requires
        st.pending_dash,
        s.len() == 0 || (s[0] != '-' && s[0] != '>'),
    ensures
        (match lex_run(s, st) {
            Ok(fin) => lex_finish(fin) is Err,
            Err(_) => true,
        }),
{
}

} // verus!
