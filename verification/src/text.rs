use vstd::prelude::*;
use vstd::utf8::{encode_scalar, encode_utf8};
use crate::grammar::byte_offset;

verus! {

/// `String::push` of the standard library: the character is appended, and
/// nothing else about the string changes.
pub assume_specification[ String::push ](text: &mut String, c: char)
    ensures
        final(text)@ == old(text)@.push(c),
;

/// The UTF-8 encoding of a text with one more character at its end is
/// the encoding of the text followed by that of the character.
pub proof fn lemma_encode_push(text: Seq<char>, c: char)
    ensures
        encode_utf8(text.push(c)) == encode_utf8(text) + encode_scalar(c as u32),
    decreases text.len(),
{
    if text.len() == 0 {
        let one = text.push(c);
        assert(one.drop_first() =~= Seq::<char>::empty());
        assert(encode_utf8(one.drop_first()) =~= Seq::<u8>::empty());
        assert(encode_utf8(text) =~= Seq::<u8>::empty());
        assert(one[0] == c);
        assert(encode_utf8(one) == encode_scalar(one[0] as u32) + encode_utf8(one.drop_first()));
        assert(encode_utf8(text.push(c)) =~= encode_scalar(c as u32));
        assert(encode_utf8(text) + encode_scalar(c as u32) =~= encode_scalar(c as u32));
    } else {
        assert(text.push(c).drop_first() =~= text.drop_first().push(c));
        lemma_encode_push(text.drop_first(), c);
        assert(encode_utf8(text.push(c)) =~= encode_utf8(text) + encode_scalar(c as u32));
    }
}

/// One character further, the byte offset grows by the width of the character passed.
pub proof fn lemma_offset_step(s: Seq<char>, i: int)
    requires
        0 <= i < s.len(),
    ensures
        byte_offset(s, i + 1) == byte_offset(s, i) + encode_scalar(s[i] as u32).len(),
{
    assert(s.take(i + 1) =~= s.take(i).push(s[i]));
    lemma_encode_push(s.take(i), s[i]);
}

/// No byte offset into a text exceeds the length of its encoding.
pub proof fn lemma_offset_bound(s: Seq<char>, i: int)
    requires
        0 <= i <= s.len(),
    ensures
        byte_offset(s, i) <= encode_utf8(s).len(),
    decreases s.len() - i,
{
    if i == s.len() {
        assert(s.take(i) =~= s);
    } else {
        lemma_offset_step(s, i);
        lemma_offset_bound(s, i + 1);
    }
}

/// The number of bytes that `c` takes in UTF-8.
pub(crate) fn utf8_width(c: char) -> (width: usize)
    ensures
        width == encode_scalar(c as u32).len(),
        1 <= width <= 4,
{
    let code: u32 = c as u32;
    if code < 0x80 {
        1
    } else if code < 0x800 {
        2
    } else if code < 0x10000 {
        3
    } else {
        4
    }
}

/// The byte offset of the character at index `i`.
pub(crate) fn offset_of(chars: &Vec<char>, i: usize) -> (offset: usize)
    requires
        i <= chars.len(),
        encode_utf8(chars@).len() <= usize::MAX,
    ensures
        offset == byte_offset(chars@, i as int),
{
    let mut offset: usize = 0;
    let mut k: usize = 0;
    assert(chars@.take(0) =~= Seq::<char>::empty());
    while k < i
        invariant
            k <= i <= chars.len(),
            encode_utf8(chars@).len() <= usize::MAX,
            offset == byte_offset(chars@, k as int),
        decreases i - k,
    {
        proof {
            lemma_offset_step(chars@, k as int);
            lemma_offset_bound(chars@, k + 1);
        }
        offset = offset + utf8_width(chars[k]);
        k = k + 1;
    }
    offset
}

/// The characters of `text`, one by one.
pub(crate) fn chars_of(text: &str) -> (chars: Vec<char>)
    ensures
        chars@ == text@,
{
    let mut chars: Vec<char> = Vec::new();
    for c in it: text.chars()
        invariant
            it.seq() == text@,
            chars@ == text@.take(it.index()),
    {
        chars.push(c);
        assert(text@.take(it.index() + 1) =~= text@.take(it.index()).push(text@[it.index()]));
    }
    assert(text@.take(text@.len() as int) =~= text@);
    chars
}

/// The characters from `lo` up to `hi` as a string.
pub(crate) fn slice_of(chars: &Vec<char>, lo: usize, hi: usize) -> (text: String)
    requires
        lo <= hi <= chars.len(),
    ensures
        text@ == chars@.subrange(lo as int, hi as int),
{
    let mut text = String::new();
    let mut k: usize = lo;
    while k < hi
        invariant
            lo <= k <= hi <= chars.len(),
            text@ == chars@.subrange(lo as int, k as int),
        decreases hi - k,
    {
        text.push(chars[k]);
        k = k + 1;
        assert(chars@.subrange(lo as int, k as int) =~= chars@.subrange(lo as int, k - 1).push(
            chars@[k - 1],
        ));
    }
    text
}

} // verus!
