//! The dotted-quad text of a candidate: four decimal octets joined by dots.

use vstd::prelude::*;
use crate::encode::{decimal, encode_digit, lemma_decimal_minimal, lemma_decimal_round_trip};

verus! {

/// The largest candidate: the keyspace is the closed interval from 0 to this value.
pub const KEYSPACE_MAX: u64 = 0xffff_ffff;

/// The number of candidates in the keyspace.
pub const KEYSPACE_SIZE: u64 = 0x1_0000_0000;

/// ASCII code of the separator between octets, `.`.
pub const SEPARATOR: u8 = 46;

/// Octet `position` of a candidate, counted from the least significant one:
/// position 3 holds bits 31 to 24, position 0 holds bits 7 to 0.
pub open spec fn octet(candidate: nat, position: nat) -> nat {
    if position == 0 {
        candidate % 256
    } else if position == 1 {
        (candidate / 0x100) % 256
    } else if position == 2 {
        (candidate / 0x1_0000) % 256
    } else {
        (candidate / 0x100_0000) % 256
    }
}

/// The text that is hashed for a candidate: its four octets in decimal, the
/// most significant first, separated by dots.
pub open spec fn dotted_quad(candidate: nat) -> Seq<u8> {
    decimal(octet(candidate, 3)) + seq![SEPARATOR] + decimal(octet(candidate, 2)) + seq![SEPARATOR]
        + decimal(octet(candidate, 1)) + seq![SEPARATOR] + decimal(octet(candidate, 0))
}

/// Shifting and masking picks the same octets as dividing and reducing.
proof fn lemma_octets_by_shift(candidate: u64)
    ensures
        (candidate >> 24 & 0xff) == octet(candidate as nat, 3),
        (candidate >> 16 & 0xff) == octet(candidate as nat, 2),
        (candidate >> 8 & 0xff) == octet(candidate as nat, 1),
        (candidate & 0xff) == octet(candidate as nat, 0),
{
    assert((candidate >> 24 & 0xff) == (candidate / 0x100_0000) % 256) by (bit_vector);
    assert((candidate >> 16 & 0xff) == (candidate / 0x1_0000) % 256) by (bit_vector);
    assert((candidate >> 8 & 0xff) == (candidate / 0x100) % 256) by (bit_vector);
    assert((candidate & 0xff) == candidate % 256) by (bit_vector);
}

/// Every candidate of the keyspace is rebuilt from its four octets, and each
/// octet is a byte: the decomposition loses nothing.
pub proof fn lemma_octets_recompose(candidate: nat)
    requires
        candidate <= KEYSPACE_MAX,
    ensures
        octet(candidate, 3) <= 255,
        octet(candidate, 2) <= 255,
        octet(candidate, 1) <= 255,
        octet(candidate, 0) <= 255,
        candidate == octet(candidate, 3) * 0x100_0000 + octet(candidate, 2) * 0x1_0000 + octet(
            candidate,
            1,
        ) * 0x100 + octet(candidate, 0),
{
}

/// Two texts that each start with a number and a separator agree only if
/// they start with the same number and go on alike.
proof fn lemma_split_at_separator(a: nat, rest_a: Seq<u8>, b: nat, rest_b: Seq<u8>)
    requires
        decimal(a) + seq![SEPARATOR] + rest_a == decimal(b) + seq![SEPARATOR] + rest_b,
    ensures
        a == b,
        rest_a == rest_b,
{
    let left = decimal(a) + seq![SEPARATOR] + rest_a;
    let right = decimal(b) + seq![SEPARATOR] + rest_b;
    let la = decimal(a).len() as int;
    let lb = decimal(b).len() as int;
    lemma_decimal_minimal(a);
    lemma_decimal_minimal(b);
    if la < lb {
        assert(left[la] == SEPARATOR);
        assert(right[la] == decimal(b)[la]);
    } else if lb < la {
        assert(right[lb] == SEPARATOR);
        assert(left[lb] == decimal(a)[lb]);
    }
    assert(la == lb);
    assert(decimal(a) =~= left.subrange(0, la));
    assert(decimal(b) =~= right.subrange(0, lb));
    assert(rest_a =~= left.subrange(la + 1, left.len() as int));
    assert(rest_b =~= right.subrange(lb + 1, right.len() as int));
    lemma_decimal_round_trip(a);
    lemma_decimal_round_trip(b);
}

/// Different candidates of the keyspace have different texts, so a digest
/// that belongs to one text belongs to one candidate.
pub proof fn lemma_dotted_quad_injective(first: nat, second: nat)
    requires
        first <= KEYSPACE_MAX,
        second <= KEYSPACE_MAX,
        dotted_quad(first) == dotted_quad(second),
    ensures
        first == second,
{
    let dot = seq![SEPARATOR];
    let tail1_a = decimal(octet(first, 1)) + dot + decimal(octet(first, 0));
    let tail1_b = decimal(octet(second, 1)) + dot + decimal(octet(second, 0));
    let tail2_a = decimal(octet(first, 2)) + dot + tail1_a;
    let tail2_b = decimal(octet(second, 2)) + dot + tail1_b;
    assert(dotted_quad(first) =~= decimal(octet(first, 3)) + dot + tail2_a);
    assert(dotted_quad(second) =~= decimal(octet(second, 3)) + dot + tail2_b);
    lemma_split_at_separator(octet(first, 3), tail2_a, octet(second, 3), tail2_b);
    lemma_split_at_separator(octet(first, 2), tail1_a, octet(second, 2), tail1_b);
    lemma_split_at_separator(
        octet(first, 1),
        decimal(octet(first, 0)),
        octet(second, 1),
        decimal(octet(second, 0)),
    );
    lemma_decimal_round_trip(octet(first, 0));
    lemma_decimal_round_trip(octet(second, 0));
    lemma_octets_recompose(first);
    lemma_octets_recompose(second);
}

/// Writes the dotted-quad text of `candidate` into `buf`, replacing what it
/// held. The buffer is cleared, not reallocated, so one buffer serves every
/// call of a scan.
pub fn format_candidate(candidate: u64, buf: &mut Vec<u8>)
    ensures
        final(buf)@ == dotted_quad(candidate as nat),
{
    proof {
        lemma_octets_by_shift(candidate);
    }
    buf.clear();
    encode_digit(candidate >> 24 & 0xff, buf);
    buf.push(SEPARATOR);
    encode_digit(candidate >> 16 & 0xff, buf);
    buf.push(SEPARATOR);
    encode_digit(candidate >> 8 & 0xff, buf);
    buf.push(SEPARATOR);
    encode_digit(candidate & 0xff, buf);
}

} // verus!
