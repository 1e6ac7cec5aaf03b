use vstd::prelude::*;
use crate::grammar::{
    all_digits, closing, digits_start, digits_value, escape_at, integer_token, is_upper, letter_token, next_comma, plain, quotable, token_end,
    unquoted,
};

verus! {

/// Whether a backslash before `c` quotes it.
pub(crate) fn is_quotable(c: char) -> (r: bool)
    ensures
        r == quotable(c),
{
    c == '{' || c == '}' || c == ',' || c == '\\'
}

/// Whether an escape starts at `i`, in the span that ends before `hi`.
pub(crate) fn escape_here(chars: &Vec<char>, i: usize, hi: usize) -> (r: bool)
    requires
        i < hi <= chars.len(),
    ensures
        r == escape_at(chars@, i as int, hi as int),
{
    chars[i] == '\\' && i + 1 < hi && is_quotable(chars[i + 1])
}

/// The index of the brace that closes the group whose interior starts at
/// `lo`, or `hi` if none does before `hi`.
pub(crate) fn find_close(chars: &Vec<char>, lo: usize, hi: usize) -> (close: usize)
    requires
        lo <= hi <= chars.len(),
    ensures
        close == closing(chars@, lo as int, hi as int, 0),
        lo <= close <= hi,
        close < hi ==> chars@[close as int] == '}',
{
    let mut i: usize = lo;
    let mut depth: usize = 0;
    while i < hi
        invariant
            lo <= i <= hi <= chars.len(),
            depth <= i - lo,
            closing(chars@, lo as int, hi as int, 0) == closing(
                chars@,
                i as int,
                hi as int,
                depth as nat,
            ),
        decreases hi - i,
    {
        if escape_here(chars, i, hi) {
            i = i + 2;
        } else if chars[i] == '{' {
            depth = depth + 1;
            i = i + 1;
        } else if chars[i] == '}' {
            if depth == 0 {
                return i;
            }
            depth = depth - 1;
            i = i + 1;
        } else {
            i = i + 1;
        }
    }
    hi
}

/// The index of the next comma of the interior that is neither quoted nor
/// nested, from `lo` on, or `hi` if there is none before `hi`.
pub(crate) fn find_comma(chars: &Vec<char>, lo: usize, hi: usize) -> (cut: usize)
    requires
        lo <= hi <= chars.len(),
    ensures
        cut == next_comma(chars@, lo as int, hi as int, 0),
        lo <= cut <= hi,
{
    let mut i: usize = lo;
    let mut depth: usize = 0;
    while i < hi
        invariant
            lo <= i <= hi <= chars.len(),
            depth <= i - lo,
            next_comma(chars@, lo as int, hi as int, 0) == next_comma(
                chars@,
                i as int,
                hi as int,
                depth as nat,
            ),
        decreases hi - i,
    {
        if escape_here(chars, i, hi) {
            i = i + 2;
        } else if chars[i] == '{' {
            depth = depth + 1;
            i = i + 1;
        } else if chars[i] == '}' {
            if depth > 0 {
                depth = depth - 1;
            }
            i = i + 1;
        } else if chars[i] == ',' && depth == 0 {
            return i;
        } else {
            i = i + 1;
        }
    }
    hi
}

/// Appends the characters from `lo` up to `hi`, without the backslashes that quote.
pub(crate) fn append_unquoted(chars: &Vec<char>, lo: usize, hi: usize, text: &mut String)
    requires
        lo <= hi <= chars.len(),
    ensures
        final(text)@ == old(text)@ + unquoted(chars@, lo as int, hi as int),
{
    let mut i: usize = lo;
    assert(text@ + unquoted(chars@, lo as int, hi as int) =~= old(text)@ + unquoted(
        chars@,
        lo as int,
        hi as int,
    ));
    while i < hi
        invariant
            lo <= i <= hi <= chars.len(),
            text@ + unquoted(chars@, i as int, hi as int) == old(text)@ + unquoted(
                chars@,
                lo as int,
                hi as int,
            ),
        decreases hi - i,
    {
        let ghost before = text@;
        if escape_here(chars, i, hi) {
            text.push(chars[i + 1]);
            assert(text@ + unquoted(chars@, i + 2, hi as int) =~= before + unquoted(
                chars@,
                i as int,
                hi as int,
            ));
            i = i + 2;
        } else {
            text.push(chars[i]);
            assert(text@ + unquoted(chars@, i + 1, hi as int) =~= before + unquoted(
                chars@,
                i as int,
                hi as int,
            ));
            i = i + 1;
        }
    }
    assert(text@ + unquoted(chars@, hi as int, hi as int) =~= text@);
}

/// Whether the span holds no brace, comma or backslash.
pub(crate) fn is_plain(chars: &Vec<char>, lo: usize, hi: usize) -> (r: bool)
    requires
        lo <= hi <= chars.len(),
    ensures
        r == plain(chars@, lo as int, hi as int),
{
    let mut i: usize = lo;
    while i < hi
        invariant
            lo <= i <= hi <= chars.len(),
            plain(chars@, lo as int, i as int),
        decreases hi - i,
    {
        if is_quotable(chars[i]) {
            return false;
        }
        i = i + 1;
    }
    true
}

/// The end of the token that starts at `lo`.
pub(crate) fn find_token_end(chars: &Vec<char>, lo: usize, hi: usize) -> (end: usize)
    requires
        lo <= hi <= chars.len(),
    ensures
        end == token_end(chars@, lo as int, hi as int),
        lo <= end <= hi,
{
    let mut i: usize = lo;
    while i < hi && chars[i] != '.'
        invariant
            lo <= i <= hi <= chars.len(),
            token_end(chars@, lo as int, hi as int) == token_end(chars@, i as int, hi as int),
        decreases hi - i,
    {
        i = i + 1;
    }
    i
}

/// A longer run of digits writes no smaller number.
pub proof fn lemma_digits_value_grows(s: Seq<char>, lo: int, mid: int, hi: int)
    requires
        lo <= mid <= hi,
    ensures
        digits_value(s, lo, mid) <= digits_value(s, lo, hi),
    decreases hi - mid,
{
    if mid < hi {
        lemma_digits_value_grows(s, lo, mid, hi - 1);
    }
}

/// The integer that the token from `lo` up to `hi` writes, if it writes one.
pub(crate) fn read_integer(chars: &Vec<char>, lo: usize, hi: usize) -> (value: Option<i64>)
    requires
        lo <= hi <= chars.len(),
    ensures
        value matches Some(v) ==> integer_token(chars@, lo as int, hi as int) == Some(v as int),
        value is None ==> integer_token(chars@, lo as int, hi as int) is None,
{
    let negative = lo < hi && chars[lo] == '-';
    let from: usize = if negative {
        lo + 1
    } else {
        lo
    };
    if from >= hi {
        return None;
    }
    let mut magnitude: u128 = 0;
    let mut i: usize = from;
    while i < hi
        invariant
            from <= i <= hi <= chars.len(),
            from == digits_start(chars@, lo as int, hi as int),
            all_digits(chars@, from as int, i as int),
            magnitude == digits_value(chars@, from as int, i as int),
            magnitude <= 0x8000_0000_0000_0000,
        decreases hi - i,
    {
        let c = chars[i];
        if !(c >= '0' && c <= '9') {
            return None;
        }
        let digit: u128 = (c as u32 - '0' as u32) as u128;
        magnitude = magnitude * 10 + digit;
        i = i + 1;
        if magnitude > 0x8000_0000_0000_0000 {
            proof {
                lemma_digits_value_grows(chars@, from as int, i as int, hi as int);
            }
            return None;
        }
    }
    if negative {
        if magnitude == 0x8000_0000_0000_0000 {
            Some(i64::MIN)
        } else {
            Some(-(magnitude as i64))
        }
    } else if magnitude == 0x8000_0000_0000_0000 {
        None
    } else {
        Some(magnitude as i64)
    }
}

/// The letter that the token from `lo` up to `hi` consists of, if it is one letter.
pub(crate) fn read_letter(chars: &Vec<char>, lo: usize, hi: usize) -> (letter: Option<u8>)
    requires
        lo <= hi <= chars.len(),
    ensures
        letter == letter_token(chars@, lo as int, hi as int),
{
    if hi - lo == 1 {
        let c = chars[lo];
        if (c >= 'A' && c <= 'Z') || (c >= 'a' && c <= 'z') {
            return Some(c as u8);
        }
    }
    None
}

/// Whether `c` is an upper-case letter.
pub(crate) fn is_upper_case(c: char) -> (r: bool)
    ensures
        r == is_upper(c),
{
    c >= 'A' && c <= 'Z'
}

} // verus!
