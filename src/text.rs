//! Building the strings of MGRS references and of error messages.
use vstd::prelude::*;
use vstd::string::*;

use crate::mgrs::floor_div_i128;

verus! {

/// The characters of a byte string of ASCII letters and digits.
pub open spec fn chars_of(b: Seq<u8>) -> Seq<char> {
    b.map_values(|c: u8| c as char)
}

/// Relies on `String::push`: appends one character at the end of the string.
#[verifier::external_body]
pub(crate) fn push_char(s: &mut String, c: char)
    ensures
        final(s)@ == old(s)@.push(c),
{
    s.push(c);
}

pub(crate) fn push_str(s: &mut String, t: &str)
    ensures
        final(s)@ == old(s)@ + t@,
{
    s.append(t);
}

/// Appends the bytes `b[from..to]`, each as one character.
pub(crate) fn push_bytes(s: &mut String, b: &[u8], from: usize, to: usize)
    requires
        from <= to <= b@.len(),
    ensures
        final(s)@ == old(s)@ + chars_of(b@.subrange(from as int, to as int)),
{
    let mut i = from;
    while i < to
        invariant
            from <= i <= to <= b@.len(),
            s@ == old(s)@ + chars_of(b@.subrange(from as int, i as int)),
        decreases to - i,
    {
        push_char(s, b[i] as char);
        i += 1;
        assert(b@.subrange(from as int, i as int) =~= b@.subrange(from as int, (i - 1) as int).push(
            b@[i - 1],
        ));
        assert(chars_of(b@.subrange(from as int, i as int)) =~= chars_of(
            b@.subrange(from as int, (i - 1) as int),
        ).push(b@[i - 1] as char));
    }
}

/// The character of the decimal digit `d`.
pub open spec fn digit_char(d: int) -> char {
    ((48 + d) as u8) as char
}

/// Decimal digits of a natural number, without leading zeros.
pub open spec fn nat_text(n: nat) -> Seq<char>
    decreases n,
{
    if n < 10 {
        seq![digit_char(n as int)]
    } else {
        nat_text(n / 10).push(digit_char((n % 10) as int))
    }
}

/// Decimal text of an integer, with a sign when it is negative.
pub open spec fn int_text(v: int) -> Seq<char> {
    if v < 0 {
        seq!['-'] + nat_text((-v) as nat)
    } else {
        nat_text(v as nat)
    }
}

/// A length given in nanometres, as kilometres with two decimals (rounded
/// towards minus infinity) followed by `km`.
pub open spec fn km_text(nm: int) -> Seq<char> {
    let tens = nm / 10_000_000_000;
    let whole = tens / 100;
    let frac = tens % 100;
    int_text(whole) + seq!['.'] + (if frac < 10 {
        seq!['0']
    } else {
        Seq::<char>::empty()
    }) + int_text(frac) + seq!['k', 'm']
}

fn push_nat(s: &mut String, n: u64)
    ensures
        final(s)@ == old(s)@ + nat_text(n as nat),
    decreases n,
{
    if n >= 10 {
        push_nat(s, n / 10);
    }
    push_char(s, ((48 + n % 10) as u8) as char);
    assert(final(s)@ =~= old(s)@ + nat_text(n as nat));
}

/// Appends the decimal digits of `v`, with a sign when it is negative.
pub(crate) fn push_int(s: &mut String, v: i64)
    ensures
        final(s)@ == old(s)@ + int_text(v as int),
{
    if v < 0 {
        push_char(s, '-');
        push_nat(s, (0i128 - v as i128) as u64);
        assert(final(s)@ =~= old(s)@ + int_text(v as int));
    } else {
        push_nat(s, v as u64);
    }
}

/// Appends a length given in nanometres as kilometres with two decimals
/// (rounded towards minus infinity).
pub(crate) fn push_km(s: &mut String, nm: i64)
    ensures
        final(s)@ == old(s)@ + km_text(nm as int),
{
    let tens = floor_div_i128(nm as i128, 10_000_000_000);
    let whole = floor_div_i128(tens, 100);
    let frac = tens - whole * 100;
    assert(frac == (nm as int / 10_000_000_000) % 100);
    push_int(s, whole as i64);
    push_char(s, '.');
    if frac < 10 {
        push_char(s, '0');
    }
    push_int(s, frac as i64);
    push_char(s, 'k');
    push_char(s, 'm');
    assert(final(s)@ =~= old(s)@ + km_text(nm as int));
}

} // verus!
