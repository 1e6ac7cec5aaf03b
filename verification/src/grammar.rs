use vstd::prelude::*;
use vstd::utf8::encode_utf8;
use crate::error::ParseFault;
use crate::tree::{Range, Tree};

verus! {

/// Whether a backslash before `c` quotes it.
pub open spec fn quotable(c: char) -> bool {
    c == '{' || c == '}' || c == ',' || c == '\\'
}

/// Whether an escape, a backslash and the character it quotes, starts at
/// `i` and ends before `hi`.
pub open spec fn escape_at(s: Seq<char>, i: int, hi: int) -> bool {
    0 <= i && i + 1 < hi <= s.len() && s[i] == '\\' && quotable(s[i + 1])
}

/// The number of bytes that the first `i` characters of `s` take in UTF-8.
pub open spec fn byte_offset(s: Seq<char>, i: int) -> nat {
    encode_utf8(s.take(i)).len()
}

/// The number of characters from `lo` up to `hi`.
pub open spec fn extent(lo: int, hi: int) -> nat {
    if lo < hi {
        (hi - lo) as nat
    } else {
        0
    }
}

/// Where the brace closes that was open when the scan reached `i` with
/// `depth` further groups open inside it; `hi` if it does not close
/// before `hi`.
pub open spec fn closing(s: Seq<char>, i: int, hi: int, depth: nat) -> int
    decreases extent(i, hi),
{
    if i >= hi {
        hi
    } else if escape_at(s, i, hi) {
        closing(s, i + 2, hi, depth)
    } else if s[i] == '{' {
        closing(s, i + 1, hi, depth + 1)
    } else if s[i] == '}' {
        if depth == 0 {
            i
        } else {
            closing(s, i + 1, hi, (depth - 1) as nat)
        }
    } else {
        closing(s, i + 1, hi, depth)
    }
}

/// Where the next comma stands that is neither quoted nor inside a nested
/// group, from `i` on with `depth` groups open; `hi` if there is none
/// before `hi`.
pub open spec fn next_comma(s: Seq<char>, i: int, hi: int, depth: nat) -> int
    decreases extent(i, hi),
{
    if i >= hi {
        hi
    } else if escape_at(s, i, hi) {
        next_comma(s, i + 2, hi, depth)
    } else if s[i] == '{' {
        next_comma(s, i + 1, hi, depth + 1)
    } else if s[i] == '}' {
        next_comma(s, i + 1, hi, if depth > 0 { (depth - 1) as nat } else { 0 })
    } else if s[i] == ',' && depth == 0 {
        i
    } else {
        next_comma(s, i + 1, hi, depth)
    }
}

/// The characters from `i` up to `hi` with every quoting backslash removed.
pub open spec fn unquoted(s: Seq<char>, i: int, hi: int) -> Seq<char>
    decreases extent(i, hi),
{
    if i >= hi {
        Seq::empty()
    } else if escape_at(s, i, hi) {
        seq![s[i + 1]] + unquoted(s, i + 2, hi)
    } else {
        seq![s[i]] + unquoted(s, i + 1, hi)
    }
}

/// Whether none of the characters from `lo` up to `hi` is a brace, a comma
/// or a backslash.
pub open spec fn plain(s: Seq<char>, lo: int, hi: int) -> bool {
    forall|k: int| lo <= k < hi ==> !quotable(#[trigger] s[k])
}

/// Where the token ends that starts at `i`: at the next `.`, or at `hi`.
pub open spec fn token_end(s: Seq<char>, i: int, hi: int) -> int
    decreases extent(i, hi),
{
    if i >= hi || s[i] == '.' {
        i
    } else {
        token_end(s, i + 1, hi)
    }
}

/// Whether two dots stand at `i`, before `hi`.
pub open spec fn dots_at(s: Seq<char>, i: int, hi: int) -> bool {
    0 <= i && i + 2 <= hi <= s.len() && s[i] == '.' && s[i + 1] == '.'
}

/// Whether the interior from `lo` up to `hi` has the outline of a range:
/// two or three tokens, none of them empty, with `..` between them, and no
/// brace, comma or backslash anywhere.
pub open spec fn range_shaped(s: Seq<char>, lo: int, hi: int) -> bool {
    let e1 = token_end(s, lo, hi);
    let e2 = token_end(s, e1 + 2, hi);
    let e3 = token_end(s, e2 + 2, hi);
    &&& plain(s, lo, hi)
    &&& lo < e1
    &&& dots_at(s, e1, hi)
    &&& e1 + 2 < e2
    &&& (e2 == hi || (dots_at(s, e2, hi) && e2 + 2 < e3 && e3 == hi))
}

pub open spec fn is_digit(c: char) -> bool {
    '0' <= c <= '9'
}

pub open spec fn is_upper(c: char) -> bool {
    'A' <= c <= 'Z'
}

pub open spec fn is_lower(c: char) -> bool {
    'a' <= c <= 'z'
}

/// Whether every character from `lo` up to `hi` is a decimal digit.
pub open spec fn all_digits(s: Seq<char>, lo: int, hi: int) -> bool {
    forall|k: int| lo <= k < hi ==> is_digit(#[trigger] s[k])
}

/// The number that the decimal digits from `lo` up to `hi` write.
pub open spec fn digits_value(s: Seq<char>, lo: int, hi: int) -> nat
    decreases extent(lo, hi),
{
    if lo >= hi {
        0
    } else {
        digits_value(s, lo, hi - 1) * 10 + (s[hi - 1] as nat - '0' as nat) as nat
    }
}

/// Where the digits of the token at `lo` start: behind its minus sign, if it has one.
pub open spec fn digits_start(s: Seq<char>, lo: int, hi: int) -> int {
    if lo < hi && s[lo] == '-' {
        lo + 1
    } else {
        lo
    }
}

/// The integer that the token from `lo` up to `hi` writes: an optional
/// minus sign and at least one digit, with a value that an `i64` holds.
pub open spec fn integer_token(s: Seq<char>, lo: int, hi: int) -> Option<int> {
    let from = digits_start(s, lo, hi);
    let magnitude = digits_value(s, from, hi) as int;
    let value = if from > lo { -magnitude } else { magnitude };
    if from < hi && all_digits(s, from, hi) && i64::MIN <= value <= i64::MAX {
        Some(value)
    } else {
        None
    }
}

/// The number of characters of the token from `lo` up to `hi`, its sign included.
pub open spec fn token_width(lo: int, hi: int) -> nat {
    extent(lo, hi)
}

/// The letter that the token from `lo` up to `hi` consists of, as its code.
pub open spec fn letter_token(s: Seq<char>, lo: int, hi: int) -> Option<u8> {
    if hi == lo + 1 && (is_upper(s[lo]) || is_lower(s[lo])) {
        Some(s[lo] as u8)
    } else {
        None
    }
}

/// The fault of a range token that does not fit its place.
pub open spec fn invalid_token(s: Seq<char>, lo: int, hi: int) -> ParseFault {
    ParseFault::InvalidRangeToken { offset: byte_offset(s, lo), text: s.subrange(lo, hi) }
}

/// The range that the group from the brace at `open` to the brace at
/// `close` writes, where its interior has the outline of one.
///
/// The first token decides the kind. A numeric range takes integers for
/// its bounds and its step. A letter range takes two letters of one case
/// and no step. The first token that does not fit is reported.
pub open spec fn range_of(s: Seq<char>, open: int, close: int) -> Result<Range, ParseFault> {
    let a1 = open + 1;
    let e1 = token_end(s, a1, close);
    let a2 = e1 + 2;
    let e2 = token_end(s, a2, close);
    let a3 = e2 + 2;
    if integer_token(s, a1, e1) is Some {
        if integer_token(s, a2, e2) is None {
            Err(invalid_token(s, a2, e2))
        } else if e2 < close && integer_token(s, a3, close) is None {
            Err(invalid_token(s, a3, close))
        } else {
            let w1 = token_width(a1, e1);
            let w2 = token_width(a2, e2);
            Ok(
                Range::Numeric {
                    start: integer_token(s, a1, e1)->0 as i64,
                    end: integer_token(s, a2, e2)->0 as i64,
                    step: if e2 < close {
                        Some(integer_token(s, a3, close)->0 as i64)
                    } else {
                        None
                    },
                    width: (if w1 >= w2 { w1 } else { w2 }) as usize,
                },
            )
        }
    } else if letter_token(s, a1, e1) is Some {
        if letter_token(s, a2, e2) is None {
            Err(invalid_token(s, a2, e2))
        } else if is_upper(s[a1]) != is_upper(s[a2]) {
            Err(ParseFault::MixedCaseAlphabeticRange { offset: byte_offset(s, open) })
        } else if e2 < close {
            Err(invalid_token(s, a3, close))
        } else {
            Ok(
                Range::Alphabetic {
                    start: letter_token(s, a1, e1)->0,
                    end: letter_token(s, a2, e2)->0,
                },
            )
        }
    } else {
        Err(invalid_token(s, a1, e1))
    }
}

/// The parts read so far, with the text read since the last of them, if any, as one more.
pub open spec fn flush(done: Seq<Tree>, text: Seq<char>) -> Seq<Tree> {
    if text.len() > 0 {
        done.push(Tree::Literal(text))
    } else {
        done
    }
}

/// One part stands for itself; any other number of parts is a sequence.
pub open spec fn wrap(parts: Seq<Tree>) -> Tree {
    if parts.len() == 1 {
        parts[0]
    } else {
        Tree::Sequence(parts)
    }
}

/// The parts of the span from `i` up to `hi`, after the parts `done` and
/// the literal text `text` that were read before `i`.
///
/// A quoted character and any other character but a brace is text. A `{`
/// starts a group, which ends at the brace that closes it; a group that is
/// no group is text too, braces included. Text between two groups is one
/// literal. A brace without its partner is a fault.
pub open spec fn pieces(s: Seq<char>, i: int, hi: int, text: Seq<char>, done: Seq<Tree>) -> Result<
    Seq<Tree>,
    ParseFault,
>
    decreases extent(i, hi), 0int,
{
    if i >= hi {
        Ok(flush(done, text))
    } else if escape_at(s, i, hi) {
        pieces(s, i + 2, hi, text.push(s[i + 1]), done)
    } else if s[i] == '{' {
        let close = closing(s, i + 1, hi, 0);
        if i < close < hi {
            match group(s, i, close) {
                Err(fault) => Err(fault),
                Ok(None) => pieces(s, close + 1, hi, text + unquoted(s, i, close + 1), done),
                Ok(Some(node)) => pieces(
                    s,
                    close + 1,
                    hi,
                    Seq::empty(),
                    flush(done, text).push(node),
                ),
            }
        } else {
            Err(ParseFault::UnbalancedBrace { offset: byte_offset(s, i) })
        }
    } else if s[i] == '}' {
        Err(ParseFault::UnbalancedBrace { offset: byte_offset(s, i) })
    } else {
        pieces(s, i + 1, hi, text.push(s[i]), done)
    }
}

/// The tree of the span from `lo` up to `hi`.
pub open spec fn span(s: Seq<char>, lo: int, hi: int) -> Result<Tree, ParseFault>
    decreases extent(lo, hi), 1int,
{
    match pieces(s, lo, hi, Seq::empty(), Seq::empty()) {
        Err(fault) => Err(fault),
        Ok(parts) => Ok(wrap(parts)),
    }
}

/// The node of the group from the brace at `open` to the brace at `close`,
/// or `None` where the braces hold no group: an interior with the outline
/// of a range is a range, any other is split at its commas.
pub open spec fn group(s: Seq<char>, open: int, close: int) -> Result<Option<Tree>, ParseFault>
    decreases extent(open + 1, close), 3int,
{
    if range_shaped(s, open + 1, close) {
        match range_of(s, open, close) {
            Err(fault) => Err(fault),
            Ok(range) => Ok(Some(Tree::Range(range))),
        }
    } else {
        branches(s, open + 1, close, Seq::empty())
    }
}

/// The alternation of the branches `done` and those of the interior from
/// `start` up to `hi`, which starts a branch; `None` where the interior
/// has no comma to split it at, so that there is one branch only.
pub open spec fn branches(s: Seq<char>, start: int, hi: int, done: Seq<Tree>) -> Result<
    Option<Tree>,
    ParseFault,
>
    decreases extent(start, hi), 2int,
{
    let cut = next_comma(s, start, hi, 0);
    if start <= cut < hi {
        match span(s, start, cut) {
            Err(fault) => Err(fault),
            Ok(branch) => branches(s, cut + 1, hi, done.push(branch)),
        }
    } else if done.len() == 0 {
        Ok(None)
    } else {
        match span(s, start, hi) {
            Err(fault) => Err(fault),
            Ok(branch) => Ok(Some(Tree::Alternation(done.push(branch)))),
        }
    }
}

/// The tree that the text `s` writes, or the first fault in it.
#[verifier::opaque]
pub open spec fn parsed(s: Seq<char>) -> Result<Tree, ParseFault> {
    span(s, 0, s.len() as int)
}

} // verus!
