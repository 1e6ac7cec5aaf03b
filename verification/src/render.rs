use vstd::prelude::*;
use crate::outcome::{decimal, digit, distance, rendered, zeros};

verus! {

/// The character of the decimal digit `d`.
pub(crate) fn digit_char(d: u64) -> (c: char)
    requires
        d < 10,
    ensures
        c == digit(d as nat),
{
    let code: u8 = (d + 48) as u8;
    code as char
}

/// Appends the decimal digits of `n`.
pub(crate) fn push_decimal(n: u64, out: &mut Vec<char>)
    ensures
        final(out)@ == old(out)@ + decimal(n as nat),
    decreases n,
{
    if n < 10 {
        out.push(digit_char(n));
        assert(out@ =~= old(out)@ + decimal(n as nat));
    } else {
        push_decimal(n / 10, out);
        out.push(digit_char(n % 10));
        assert(out@ =~= old(out)@ + decimal(n as nat));
    }
}

/// Appends the characters of `chars`.
pub(crate) fn push_chars(chars: &Vec<char>, out: &mut String)
    ensures
        final(out)@ == old(out)@ + chars@,
{
    let mut i: usize = 0;
    assert(out@ =~= old(out)@ + chars@.take(0));
    while i < chars.len()
        invariant
            i <= chars.len(),
            out@ == old(out)@ + chars@.take(i as int),
        decreases chars.len() - i,
    {
        out.push(chars[i]);
        i = i + 1;
        assert(out@ =~= old(out)@ + chars@.take(i as int));
    }
    assert(chars@.take(chars.len() as int) =~= chars@);
}

/// Appends `n` zeros.
pub(crate) fn push_zeros(n: usize, out: &mut String)
    ensures
        final(out)@ == old(out)@ + zeros(n as nat),
{
    let mut i: usize = 0;
    assert(out@ =~= old(out)@ + zeros(0));
    while i < n
        invariant
            i <= n,
            out@ == old(out)@ + zeros(i as nat),
        decreases n - i,
    {
        out.push('0');
        i = i + 1;
        assert(out@ =~= old(out)@ + zeros(i as nat));
    }
}

/// Appends `value` as an item of a numeric range of the given width.
pub(crate) fn push_number(value: i64, width: usize, out: &mut String)
    ensures
        final(out)@ == old(out)@ + rendered(value as int, width as nat),
{
    let magnitude: u64 = if value < 0 {
        (-(value as i128)) as u64
    } else {
        value as u64
    };
    assert(magnitude == distance(0, value as int));
    let mut digits: Vec<char> = Vec::new();
    push_decimal(magnitude, &mut digits);
    assert(digits@ =~= decimal(magnitude as nat));
    let ghost start = out@;
    if value < 0 {
        out.push('-');
    }
    let ghost signed = out@;
    let taken: usize = if value < 0 {
        1
    } else {
        0
    };
    if digits.len() < width && taken < width - digits.len() {
        push_zeros(width - digits.len() - taken, out);
    }
    let ghost padded = out@;
    push_chars(&digits, out);
    assert(out@ =~= start + rendered(value as int, width as nat)) by {
        let sign = if value < 0 {
            seq!['-']
        } else {
            Seq::<char>::empty()
        };
        let padding = if sign.len() + digits@.len() < width {
            zeros((width - sign.len() - digits@.len()) as nat)
        } else {
            Seq::<char>::empty()
        };
        assert(signed =~= start + sign);
        assert(padded =~= signed + padding);
        assert(out@ =~= start + (sign + padding + digits@));
    }
}

} // verus!
