//! Resolution of an ambiguous match by an operator's reply.
use vstd::prelude::*;
use vstd::string::StrSliceExecFns;
use crate::model::Invoice;

verus! {

/// White space as `char::is_whitespace` has it: the Unicode `White_Space`
/// characters, which `str::trim` strips from both ends.
pub open spec fn is_blank(c: char) -> bool {
    ('\u{9}' <= c <= '\u{d}') || c == ' ' || c == '\u{85}' || c == '\u{a0}' || c == '\u{1680}'
        || ('\u{2000}' <= c <= '\u{200a}') || c == '\u{2028}' || c == '\u{2029}' || c == '\u{202f}'
        || c == '\u{205f}' || c == '\u{3000}'
}

pub open spec fn is_digit(c: char) -> bool {
    '0' <= c <= '9'
}

/// `s` without its leading blanks.
pub open spec fn trim_start(s: Seq<char>) -> Seq<char>
    decreases s.len(),
{
    if s.len() > 0 && is_blank(s[0]) {
        trim_start(s.drop_first())
    } else {
        s
    }
}

/// `s` without its trailing blanks.
pub open spec fn trim_end(s: Seq<char>) -> Seq<char>
    decreases s.len(),
{
    if s.len() > 0 && is_blank(s.last()) {
        trim_end(s.drop_last())
    } else {
        s
    }
}

pub open spec fn trimmed(s: Seq<char>) -> Seq<char> {
    trim_end(trim_start(s))
}

pub open spec fn all_digits(s: Seq<char>) -> bool {
    forall|i: int| 0 <= i < s.len() ==> is_digit(#[trigger] s[i])
}

/// The number that a string of decimal digits writes.
pub open spec fn digits_value(s: Seq<char>) -> nat
    decreases s.len(),
{
    if s.len() == 0 {
        0
    } else {
        digits_value(s.drop_last()) * 10 + (s.last() as nat - '0' as nat) as nat
    }
}

/// Why a reply selects no candidate.
#[derive(Debug, Clone, Copy, PartialEq, Eq, Structural)]
pub enum SelectionError {
    /// The reply is not a whole number.
    NotANumber,
    /// The reply names no position of the list.
    OutOfRange,
}

/// The digits of an unsigned number: one leading `+` is allowed.
pub open spec fn unsigned_digits(t: Seq<char>) -> Seq<char> {
    if t.len() > 0 && t[0] == '+' {
        t.drop_first()
    } else {
        t
    }
}

/// What a reply asks for, given `n` candidates: `Ok(None)` defers,
/// `Ok(Some(i))` picks position `i`. Once trimmed, a reply other than
/// blank must be an unsigned decimal number, optionally after a `+`.
pub open spec fn reply_choice(reply: Seq<char>, n: nat) -> Result<Option<nat>, SelectionError> {
    let t = trimmed(reply);
    let d = unsigned_digits(t);
    if t.len() == 0 {
        Ok(None)
    } else if d.len() == 0 || !all_digits(d) {
        Err(SelectionError::NotANumber)
    } else if digits_value(d) < n {
        Ok(Some(digits_value(d)))
    } else {
        Err(SelectionError::OutOfRange)
    }
}

proof fn lemma_digits_value_grows(s: Seq<char>, c: char)
    requires
        is_digit(c),
    ensures
        digits_value(s.push(c)) >= digits_value(s),
        digits_value(s.push(c)) == digits_value(s) * 10 + (c as nat - '0' as nat),
{
    assert(s.push(c).drop_last() =~= s);
}

/// Reads a reply to a choice among `candidates`: blank defers, a position
/// of the list picks that candidate; anything else is a `SelectionError`.
/// Surrounding white space is ignored, as `str::trim` ignores it, and the
/// number may carry a leading `+`, as `usize`'s parsing allows. The list
/// is neither changed nor reordered.
pub fn resolve_choice(candidates: &Vec<Invoice>, reply: &str) -> (r: Result<
    Option<Invoice>,
    SelectionError,
>)
    ensures
        match reply_choice(reply@, candidates@.len()) {
            Ok(None) => r == Ok::<Option<Invoice>, SelectionError>(None),
            Ok(Some(i)) => r == Ok::<Option<Invoice>, SelectionError>(Some(candidates@[i as int])),
            Err(e) => r == Err::<Option<Invoice>, SelectionError>(e),
        },
{
    let ghost s = reply@;
    let n = reply.unicode_len();
    let mut lo: usize = 0;
    assert(s.subrange(0, n as int) =~= s);
    while lo < n && is_blank_char(reply.get_char(lo))
        invariant
            s == reply@,
            n == s.len(),
            lo <= n,
            trim_start(s) == trim_start(s.subrange(lo as int, n as int)),
        decreases n - lo,
    {
        assert(s.subrange(lo as int, n as int).drop_first() =~= s.subrange(lo + 1, n as int));
        lo += 1;
    }
    assert(trim_start(s) == s.subrange(lo as int, n as int));
    let mut hi: usize = n;
    while hi > lo && is_blank_char(reply.get_char(hi - 1))
        invariant
            s == reply@,
            n == s.len(),
            lo <= hi <= n,
            trim_start(s) == s.subrange(lo as int, n as int),
            trimmed(s) == trim_end(s.subrange(lo as int, hi as int)),
        decreases hi - lo,
    {
        assert(s.subrange(lo as int, hi as int).drop_last() =~= s.subrange(lo as int, hi - 1));
        assert(s.subrange(lo as int, hi as int).last() == s[hi - 1]);
        hi -= 1;
    }
    let ghost t = s.subrange(lo as int, hi as int);
    assert(trimmed(s) == t);
    if lo == hi {
        return Ok(None);
    }
    let start: usize = if reply.get_char(lo) == '+' {
        lo + 1
    } else {
        lo
    };
    let ghost d = s.subrange(start as int, hi as int);
    assert(unsigned_digits(t) == d) by {
        if start > lo {
            assert(t.drop_first() =~= d);
        } else {
            assert(t =~= d);
        }
    }
    if start == hi {
        assert(d.len() == 0);
        return Err(SelectionError::NotANumber);
    }
    let count = candidates.len();
    let mut value: usize = 0;
    let mut too_big = count == 0;
    assert(s.subrange(start as int, start as int) =~= Seq::<char>::empty());
    let mut j: usize = start;
    while j < hi
        invariant
            s == reply@,
            n == s.len(),
            lo <= start <= j <= hi <= n,
            t == s.subrange(lo as int, hi as int),
            d == s.subrange(start as int, hi as int),
            trimmed(s) == t,
            unsigned_digits(t) == d,
            lo < hi,
            start < hi,
            count == candidates@.len(),
            all_digits(s.subrange(start as int, j as int)),
            !too_big ==> value as nat == digits_value(s.subrange(start as int, j as int)) && value
                < count,
            too_big ==> digits_value(s.subrange(start as int, j as int)) >= count,
        decreases hi - j,
    {
        let c = reply.get_char(j);
        if !is_digit_char(c) {
            assert(d[j - start] == c);
            assert(!is_digit(d[j - start]));
            assert(!all_digits(d));
            assert(t.len() > 0);
            return Err(SelectionError::NotANumber);
        }
        let ghost prev = s.subrange(start as int, j as int);
        assert(s.subrange(start as int, j + 1) =~= prev.push(c));
        proof {
            lemma_digits_value_grows(prev, c);
        }
        if !too_big {
            let d = (c as u32 - '0' as u32) as u128;
            let next: u128 = (value as u128) * 10 + d;
            if next >= count as u128 {
                too_big = true;
            } else {
                value = next as usize;
            }
        }
        j += 1;
    }
    assert(s.subrange(start as int, hi as int) == d);
    if too_big {
        Err(SelectionError::OutOfRange)
    } else {
        Ok(Some(candidates[value].duplicate()))
    }
}

fn is_blank_char(c: char) -> (r: bool)
    ensures
        r == is_blank(c),
{
    (c >= '\u{9}' && c <= '\u{d}') || c == ' ' || c == '\u{85}' || c == '\u{a0}' || c == '\u{1680}'
        || (c >= '\u{2000}' && c <= '\u{200a}') || c == '\u{2028}' || c == '\u{2029}'
        || c == '\u{202f}' || c == '\u{205f}' || c == '\u{3000}'
}

fn is_digit_char(c: char) -> (r: bool)
    ensures
        r == is_digit(c),
{
    '0' <= c && c <= '9'
}

} // verus!
