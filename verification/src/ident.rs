//! Identifier shapes of the DOT lexical grammar.
//!
//! An unquoted identifier is either alphabetic (a letter, extended-ASCII
//! character or underscore followed by letters, digits or underscores) or a
//! numeral (an optional minus sign, then digits with at most one decimal
//! point, or a leading-dot fraction).  A quoted identifier is a
//! double-quoted string whose interior quotes are all escaped.

use vstd::prelude::*;

verus! {

/// Is `c` an ASCII decimal digit?
pub open spec fn is_digit_char(c: char) -> bool {
    '0' <= c && c <= '9'
}

/// May `c` begin an alphabetic identifier: a letter, an extended-ASCII
/// character (U+0080 through U+00FF) or an underscore?
pub open spec fn is_alpha_lead_char(c: char) -> bool {
    ||| 'a' <= c && c <= 'z'
    ||| 'A' <= c && c <= 'Z'
    ||| c == '_'
    ||| 0x80 <= c as u32 && c as u32 <= 0xFF
}

/// May `c` continue an alphabetic identifier?
pub open spec fn is_alpha_rest_char(c: char) -> bool {
    is_alpha_lead_char(c) || is_digit_char(c)
}

/// Every character of `s` is an ASCII decimal digit.
pub open spec fn all_digits(s: Seq<char>) -> bool {
    forall|i: int| 0 <= i < s.len() ==> is_digit_char(#[trigger] s[i])
}

/// The alphabetic-identifier shape: a lead character followed by
/// continuation characters.
pub open spec fn is_alphabetic_id(w: Seq<char>) -> bool {
    &&& w.len() >= 1
    &&& is_alpha_lead_char(w[0])
    &&& forall|i: int| 1 <= i < w.len() ==> is_alpha_rest_char(#[trigger] w[i])
}

/// The unsigned part of a numeral: either a leading-dot fraction `.d+`, or
/// digits with an optional decimal point `d+` / `d+.d*`.
pub open spec fn is_numeral_body(t: Seq<char>) -> bool {
    if t.len() == 0 {
        false
    } else if t[0] == '.' {
        t.len() >= 2 && all_digits(t.skip(1))
    } else {
        exists|k: int|
            1 <= k <= t.len() && all_digits(#[trigger] t.take(k)) && (k == t.len() || (t[k] == '.'
                && all_digits(t.skip(k + 1))))
    }
}

/// The numeral-identifier shape: an optional minus sign, then a numeral body.
pub open spec fn is_numeral_id(w: Seq<char>) -> bool {
    &&& w.len() >= 1
    &&& if w[0] == '-' {
        is_numeral_body(w.skip(1))
    } else {
        is_numeral_body(w)
    }
}

/// The interior of a quoted identifier: a sequence of units, each either a
/// plain character (not `"` or `\`) or a backslash followed by any character
/// other than a newline.
pub open spec fn is_quoted_body(s: Seq<char>) -> bool
    decreases s.len(),
{
    if s.len() == 0 {
        true
    } else if s[0] == '\\' {
        s.len() >= 2 && s[1] != '\n' && is_quoted_body(s.skip(2))
    } else {
        s[0] != '"' && is_quoted_body(s.skip(1))
    }
}

/// The quoted-identifier shape: outer quotes around a well-formed interior.
pub open spec fn is_quoted_id(w: Seq<char>) -> bool {
    &&& w.len() >= 2
    &&& w[0] == '"'
    &&& w[w.len() - 1] == '"'
    &&& is_quoted_body(w.subrange(1, w.len() - 1))
}

/// A well-formed identifier word.  A word of one ASCII character must be a
/// letter or digit; the empty quoted string `""` is rejected; any other word
/// must match one of the three identifier shapes.
pub open spec fn is_valid_id(w: Seq<char>) -> bool {
    if w.len() == 1 && (w[0] as u32) < 0x80 {
        ('a' <= w[0] && w[0] <= 'z') || ('A' <= w[0] && w[0] <= 'Z') || is_digit_char(w[0])
    } else if w =~= seq!['"', '"'] {
        false
    } else {
        is_alphabetic_id(w) || is_numeral_id(w) || is_quoted_id(w)
    }
}

/// Exec test for [`is_alpha_lead_char`].
pub fn check_alpha_lead(c: char) -> (r: bool)
    ensures
        r == is_alpha_lead_char(c),
{
    ('a' <= c && c <= 'z') || ('A' <= c && c <= 'Z') || c == '_' || (0x80 <= c as u32 && c as u32
        <= 0xFF)
}

/// Exec test for [`is_digit_char`].
pub fn check_digit(c: char) -> (r: bool)
    ensures
        r == is_digit_char(c),
{
    '0' <= c && c <= '9'
}

/// Exec test for [`is_alphabetic_id`].
pub fn check_alphabetic_id(w: &Vec<char>) -> (r: bool)
    ensures
        r == is_alphabetic_id(w@),
{
    if w.len() == 0 {
        return false;
    }
    if !check_alpha_lead(w[0]) {
        return false;
    }
    let mut i: usize = 1;
    while i < w.len()
        invariant
            1 <= i <= w@.len(),
            is_alpha_lead_char(w@[0]),
            forall|j: int| 1 <= j < i ==> is_alpha_rest_char(#[trigger] w@[j]),
        decreases w@.len() - i,
    {
        if !(check_alpha_lead(w[i]) || check_digit(w[i])) {
            return false;
        }
        i += 1;
    }
    true
}

/// First index at or after `from` whose character is not a digit.
fn scan_digits(w: &Vec<char>, from: usize) -> (r: usize)
    requires
        from <= w@.len(),
    ensures
        from <= r <= w@.len(),
        forall|j: int| from <= j < r ==> is_digit_char(#[trigger] w@[j]),
        r < w@.len() ==> !is_digit_char(w@[r as int]),
{
    let mut i: usize = from;
    let mut stop = false;
    while !stop && i < w.len()
        invariant
            from <= i <= w@.len(),
            forall|j: int| from <= j < i ==> is_digit_char(#[trigger] w@[j]),
            stop ==> i < w@.len() && !is_digit_char(w@[i as int]),
        decreases w@.len() - i, if stop { 0int } else { 1int },
    {
        if check_digit(w[i]) {
            i += 1;
        } else {
            stop = true;
        }
    }
    i
}

/// Exec test for [`is_numeral_body`] on `w` from index `from` on.
fn check_numeral_body(w: &Vec<char>, from: usize) -> (r: bool)
    requires
        from <= w@.len(),
    ensures
        r == is_numeral_body(w@.skip(from as int)),
{
    let ghost t = w@.skip(from as int);
    if from == w.len() {
        return false;
    }
    if w[from] == '.' {
        // leading-dot fraction: at least one digit, and nothing but digits
        if from + 1 == w.len() {
            return false;
        }
        let i = scan_digits(w, from + 1);
        if i == w.len() {
            assert(all_digits(t.skip(1)));
            true
        } else {
            assert(!is_digit_char(t.skip(1)[i - from - 1]));
            false
        }
    } else {
        if !check_digit(w[from]) {
            assert forall|k: int|
                1 <= k <= t.len() implies !(all_digits(#[trigger] t.take(k)) && (k == t.len() || (
            t[k] == '.' && all_digits(t.skip(k + 1))))) by {
                assert(t.take(k)[0] == t[0]);
            }
            return false;
        }
        // digits, then an optional dot with trailing digits
        let i = scan_digits(w, from + 1);
        let ghost k = i - from;
        assert(all_digits(t.take(k)));
        if i == w.len() {
            return true;
        }
        if w[i] != '.' {
            assert forall|k2: int|
                1 <= k2 <= t.len() implies !(all_digits(#[trigger] t.take(k2)) && (k2 == t.len()
                || (t[k2] == '.' && all_digits(t.skip(k2 + 1))))) by {
                if k2 > k {
                    assert(!is_digit_char(t.take(k2)[k]));
                } else if k2 < k {
                    assert(t[k2] == w@[from + k2]);
                    assert(is_digit_char(t[k2]));
                }
            }
            return false;
        }
        // dot found after the digits; the rest must be digits
        let j = scan_digits(w, i + 1);
        if j == w.len() {
            assert(all_digits(t.skip(k + 1)));
            assert(1 <= k <= t.len() && all_digits(t.take(k)) && (k == t.len() || (t[k] == '.'
                && all_digits(t.skip(k + 1)))));
            true
        } else {
            let ghost bad = j;
            assert forall|k2: int|
                1 <= k2 <= t.len() implies !(all_digits(#[trigger] t.take(k2)) && (k2 == t.len()
                || (t[k2] == '.' && all_digits(t.skip(k2 + 1))))) by {
                if k2 > k {
                    assert(!is_digit_char(t.take(k2)[k]));
                } else if k2 < k {
                    assert(t[k2] == w@[from + k2]);
                    assert(is_digit_char(t[k2]));
                } else {
                    assert(!is_digit_char(t.skip(k2 + 1)[bad - from - k2 - 1]));
                }
            }
            false
        }
    }
}

/// Exec test for [`is_numeral_id`].
pub fn check_numeral_id(w: &Vec<char>) -> (r: bool)
    ensures
        r == is_numeral_id(w@),
{
    if w.len() == 0 {
        return false;
    }
    if w[0] == '-' {
        check_numeral_body(w, 1)
    } else {
        let r = check_numeral_body(w, 0);
        assert(w@.skip(0) =~= w@);
        r
    }
}

/// Exec test for [`is_quoted_body`] on `w` between `from` and `to`.
fn check_quoted_body(w: &Vec<char>, from: usize, to: usize) -> (r: bool)
    requires
        from <= to <= w@.len(),
    ensures
        r == is_quoted_body(w@.subrange(from as int, to as int)),
    decreases to - from,
{
    let ghost s = w@.subrange(from as int, to as int);
    if from == to {
        true
    } else if w[from] == '\\' {
        if from + 1 < to && w[from + 1] != '\n' {
            let r = check_quoted_body(w, from + 2, to);
            assert(s.skip(2) =~= w@.subrange(from + 2, to as int));
            r
        } else {
            false
        }
    } else if w[from] != '"' {
        let r = check_quoted_body(w, from + 1, to);
        assert(s.skip(1) =~= w@.subrange(from + 1, to as int));
        r
    } else {
        false
    }
}

/// Exec test for [`is_quoted_id`].
pub fn check_quoted_id(w: &Vec<char>) -> (r: bool)
    ensures
        r == is_quoted_id(w@),
{
    if w.len() < 2 {
        return false;
    }
    if w[0] != '"' {
        return false;
    }
    if w[w.len() - 1] != '"' {
        return false;
    }
    check_quoted_body(w, 1, w.len() - 1)
}

/// Exec test for [`is_valid_id`].
pub fn check_valid_id(w: &Vec<char>) -> (r: bool)
    ensures
        r == is_valid_id(w@),
{
    if w.len() == 1 && (w[0] as u32) < 0x80 {
        let c = w[0];
        ('a' <= c && c <= 'z') || ('A' <= c && c <= 'Z') || ('0' <= c && c <= '9')
    } else if w.len() == 2 && w[0] == '"' && w[1] == '"' {
        assert(w@ =~= seq!['"', '"']);
        false
    } else {
        assert(!(w@ =~= seq!['"', '"']));
        check_alphabetic_id(w) || check_numeral_id(w) || check_quoted_id(w)
    }
}

} // verus!
