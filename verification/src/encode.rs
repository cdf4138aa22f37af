//! Decimal rendering of small integers into a reusable byte buffer.

use vstd::prelude::*;

verus! {

/// ASCII code of the character `0`.
pub const ASCII_ZERO: u8 = 48;

/// The base-10 ASCII rendering of `n`, most significant digit first.
pub open spec fn decimal(n: nat) -> Seq<u8>
    decreases n,
{
    if n < 10 {
        seq![(ASCII_ZERO + n) as u8]
    } else {
        decimal(n / 10).push((ASCII_ZERO + n % 10) as u8)
    }
}

/// Appends the decimal rendering of `digit` (an octet, 0 to 255) to `buf`.
pub fn encode_digit(digit: u64, buf: &mut Vec<u8>)
    requires
        digit <= 255,
    ensures
        final(buf)@ == old(buf)@ + decimal(digit as nat),
{
    if digit >= 100 {
        buf.push(ASCII_ZERO + (digit / 100) as u8);
    }
    if digit >= 10 {
        buf.push(ASCII_ZERO + ((digit / 10) % 10) as u8);
    }
    buf.push(ASCII_ZERO + (digit % 10) as u8);
    proof {
        reveal_with_fuel(decimal, 3);
    }
}

/// Appends the decimal rendering of `n`, a number of any size, to `buf`.
pub fn encode_decimal(n: u128, buf: &mut Vec<u8>)
    ensures
        final(buf)@ == old(buf)@ + decimal(n as nat),
    decreases n,
{
    if n >= 10 {
        encode_decimal(n / 10, buf);
    }
    buf.push(ASCII_ZERO + (n % 10) as u8);
}

/// The number that a string of decimal digits denotes, most significant digit
/// first; the inverse of [`decimal`].
pub open spec fn decimal_value(digits: Seq<u8>) -> nat
    decreases digits.len(),
{
    if digits.len() == 0 {
        0
    } else {
        (decimal_value(digits.drop_last()) * 10 + (digits.last() - ASCII_ZERO)) as nat
    }
}

/// The rendering of a number is never empty, holds decimal digits only, and
/// starts with `0` for the number zero alone, whose rendering is the single
/// digit `0`: no number is rendered with a leading zero.
pub proof fn lemma_decimal_minimal(n: nat)
    ensures
        decimal(n).len() >= 1,
        forall|i: int|
            0 <= i < decimal(n).len() ==> ASCII_ZERO <= #[trigger] decimal(n)[i] <= ASCII_ZERO + 9,
        decimal(n)[0] == ASCII_ZERO <==> n == 0,
        n == 0 ==> decimal(n) == seq![ASCII_ZERO],
    decreases n,
{
    if n >= 10 {
        lemma_decimal_minimal(n / 10);
    }
}

/// An octet is rendered with one, two or three digits, as many as its size asks for.
pub proof fn lemma_decimal_octet_width(n: nat)
    requires
        n <= 255,
    ensures
        decimal(n).len() == if n < 10 {
            1nat
        } else if n < 100 {
            2nat
        } else {
            3nat
        },
{
    reveal_with_fuel(decimal, 3);
}

/// Reading a rendering back gives the number it was made from, so two
/// different numbers never share a rendering.
pub proof fn lemma_decimal_round_trip(n: nat)
    ensures
        decimal_value(decimal(n)) == n,
    decreases n,
{
    if n < 10 {
        assert(decimal(n).drop_last() =~= Seq::<u8>::empty());
        reveal_with_fuel(decimal_value, 2);
    } else {
        lemma_decimal_round_trip(n / 10);
        let shorter = decimal(n / 10);
        assert(decimal(n).drop_last() =~= shorter);
        assert(decimal(n).last() == (ASCII_ZERO + n % 10) as u8);
    }
}

} // verus!
