//! The texts that write a binary64 number.

use vstd::prelude::*;
use crate::text::is_digit;

verus! {

/// A letter of the basic alphabet in lower case; every other character as it is.
pub open spec fn lower_case(c: char) -> char {
    if 'A' <= c && c <= 'Z' {
        ((c as u32) + 32) as char
    } else {
        c
    }
}

/// Whether the text from `start` on is the given word, whatever the case of
/// its letters.
pub open spec fn spells(s: Seq<char>, start: int, word: Seq<char>) -> bool {
    s.len() - start == word.len() && forall|i: int|
        0 <= i < word.len() ==> lower_case(#[trigger] s[start + i]) == word[i]
}

/// Whether the text from `start` on names a binary64 value that no digits
/// write: `inf`, `infinity` or `nan`, in letters of either case.
pub open spec fn is_named_float(s: Seq<char>, start: int) -> bool {
    spells(s, start, seq!['i', 'n', 'f']) || spells(
        s,
        start,
        seq!['i', 'n', 'f', 'i', 'n', 'i', 't', 'y'],
    ) || spells(s, start, seq!['n', 'a', 'n'])
}

/// The place of the first character at or after `from` that is no digit; the
/// length of the text where there is none.
pub open spec fn digits_end(s: Seq<char>, from: int) -> int
    decreases s.len() - from,
{
    if 0 <= from < s.len() && is_digit(s[from]) {
        digits_end(s, from + 1)
    } else {
        from
    }
}

/// Whether the text from `start` on is an exponent: the letter `e` in either
/// case, an optional sign, and at least one digit up to the end of the text.
pub open spec fn is_exponent(s: Seq<char>, start: int) -> bool {
    start < s.len() && (s[start] == 'e' || s[start] == 'E') && {
        let first = if start + 1 < s.len() && (s[start + 1] == '+' || s[start + 1] == '-') {
            start + 2
        } else {
            start + 1
        };
        digits_end(s, first) > first && digits_end(s, first) == s.len()
    }
}

/// Whether the text from `start` on is a decimal number: digits, an optional
/// point and further digits, at least one digit in all, and an optional
/// exponent.
pub open spec fn is_decimal(s: Seq<char>, start: int) -> bool {
    let whole = digits_end(s, start);
    let pointed = whole < s.len() && s[whole] == '.';
    let end = if pointed {
        digits_end(s, whole + 1)
    } else {
        whole
    };
    let count = if pointed {
        end - start - 1
    } else {
        end - start
    };
    count > 0 && (end == s.len() || is_exponent(s, end))
}

/// Whether a text writes a binary64 number: an optional sign, then a decimal
/// number or one of the names.
pub open spec fn float_syntax(s: Seq<char>) -> bool {
    let start: int = if s.len() > 0 && (s[0] == '+' || s[0] == '-') {
        1
    } else {
        0
    };
    is_named_float(s, start) || is_decimal(s, start)
}

/// The place of the first character at or after `from` that is no digit.
pub fn skip_digits(chars: &Vec<char>, from: usize) -> (r: usize)
    requires
        from <= chars.len(),
    ensures
        r == digits_end(chars@, from as int),
        from <= r <= chars.len(),
{
    let mut i: usize = from;
    while i < chars.len() && chars[i] >= '0' && chars[i] <= '9'
        invariant
            from <= i <= chars.len(),
            digits_end(chars@, from as int) == digits_end(chars@, i as int),
        decreases chars.len() - i,
    {
        i += 1;
    }
    i
}

/// A letter of the basic alphabet in lower case.
pub fn to_lower_case(c: char) -> (r: char)
    ensures
        r == lower_case(c),
{
    if c >= 'A' && c <= 'Z' {
        ((c as u8) + 32) as char
    } else {
        c
    }
}

/// Whether the text from `start` on is the given word, whatever the case of
/// its letters.
pub fn spelled(chars: &Vec<char>, start: usize, word: &Vec<char>) -> (r: bool)
    requires
        start <= chars.len(),
    ensures
        r == spells(chars@, start as int, word@),
{
    if chars.len() - start != word.len() {
        return false;
    }
    let mut i: usize = 0;
    while i < word.len()
        invariant
            i <= word.len(),
            chars.len() - start == word.len(),
            forall|j: int| 0 <= j < i ==> lower_case(#[trigger] chars@[start + j]) == word@[j],
        decreases word.len() - i,
    {
        if to_lower_case(chars[start + i]) != word[i] {
            return false;
        }
        i += 1;
    }
    true
}

/// Whether a text writes a binary64 number.
pub fn is_float_text(chars: &Vec<char>) -> (r: bool)
    ensures
        r == float_syntax(chars@),
{
    let n = chars.len();
    let start: usize = if n > 0 && (chars[0] == '+' || chars[0] == '-') {
        1
    } else {
        0
    };
    let inf: Vec<char> = vec!['i', 'n', 'f'];
    let infinity: Vec<char> = vec!['i', 'n', 'f', 'i', 'n', 'i', 't', 'y'];
    let nan: Vec<char> = vec!['n', 'a', 'n'];
    assert(inf@ == seq!['i', 'n', 'f']);
    assert(infinity@ == seq!['i', 'n', 'f', 'i', 'n', 'i', 't', 'y']);
    assert(nan@ == seq!['n', 'a', 'n']);
    if spelled(chars, start, &inf) || spelled(chars, start, &infinity) || spelled(chars, start, &nan) {
        return true;
    }
    let whole = skip_digits(chars, start);
    let pointed = whole < n && chars[whole] == '.';
    let end = if pointed {
        skip_digits(chars, whole + 1)
    } else {
        whole
    };
    let count = if pointed {
        end - start - 1
    } else {
        end - start
    };
    if count == 0 {
        return false;
    }
    if end == n {
        return true;
    }
    if chars[end] != 'e' && chars[end] != 'E' {
        return false;
    }
    let first = if end + 1 < n && (chars[end + 1] == '+' || chars[end + 1] == '-') {
        end + 2
    } else {
        end + 1
    };
    let last = skip_digits(chars, first);
    last > first && last == n
}

} // verus!
