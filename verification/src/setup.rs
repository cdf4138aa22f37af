//! What is settled before any worker starts: the target digest, decoded from
//! its hexadecimal text, the number of workers, and their partitions.

use vstd::prelude::*;
use crate::candidate::{KEYSPACE_MAX, KEYSPACE_SIZE};
use crate::partition::{nth_partition, partition, Partition};

verus! {

/// Why a hexadecimal text could not be decoded.
#[derive(Clone, Copy, Debug, PartialEq, Eq, Structural)]
pub enum HexError {
    /// The byte at `index`, here as the character `c`, is no hexadecimal digit.
    InvalidHexCharacter { c: char, index: usize },
    /// The text has an odd number of digits.
    OddLength,
    /// The text does not fill a container of fixed size. Decoding into a
    /// vector never gives this.
    InvalidStringLength,
}

/// Why a search could not be set up.
#[derive(Clone, Copy, Debug, PartialEq, Eq, Structural)]
pub enum SetupError {
    /// The target digest is no hexadecimal text.
    MalformedDigest(HexError),
    /// With one unit of parallelism kept back for the monitor, none is left
    /// for a worker.
    NoWorkers,
    /// There would be more workers than candidates.
    TooManyWorkers,
}

/// The value of a hexadecimal digit, in either case.
pub open spec fn hex_digit_value(byte: u8) -> Option<nat> {
    if 48 <= byte <= 57 {
        Some((byte - 48) as nat)
    } else if 97 <= byte <= 102 {
        Some((byte - 87) as nat)
    } else if 65 <= byte <= 70 {
        Some((byte - 55) as nat)
    } else {
        None
    }
}

/// The first `count` bytes of `text` are hexadecimal digits.
pub open spec fn hex_digits_up_to(text: Seq<u8>, count: int) -> bool {
    forall|i: int| 0 <= i < count ==> (#[trigger] hex_digit_value(text[i])) is Some
}

/// The bytes that a text of hexadecimal digits denotes: each pair of digits
/// is one byte, the high digit first.
pub open spec fn hex_decoded(text: Seq<u8>) -> Seq<u8> {
    Seq::new(
        text.len() / 2,
        |i: int|
            (16 * hex_digit_value(text[2 * i]).unwrap() + hex_digit_value(
                text[2 * i + 1],
            ).unwrap()) as u8,
    )
}

/// What decoding `text` gives: the bytes, if the text has an even number of
/// bytes and all are hexadecimal digits; else the odd length, which is
/// looked at first, or the first byte that is no digit.
pub open spec fn hex_decode_result(text: Seq<u8>, result: Result<Vec<u8>, HexError>) -> bool {
    match result {
        Ok(bytes) => {
            &&& text.len() % 2 == 0
            &&& hex_digits_up_to(text, text.len() as int)
            &&& bytes@ == hex_decoded(text)
        },
        Err(HexError::OddLength) => text.len() % 2 == 1,
        Err(HexError::InvalidHexCharacter { c, index }) => {
            &&& text.len() % 2 == 0
            &&& index < text.len()
            &&& c == text[index as int] as char
            &&& hex_digit_value(text[index as int]) is None
            &&& hex_digits_up_to(text, index as int)
        },
        Err(HexError::InvalidStringLength) => false,
    }
}

/// `hex::decode`: decodes a text of hexadecimal digits, upper or lower case,
/// into bytes. It fails on an odd length, and else on the first byte that is
/// no digit, which it gives back with its index. Trusted, not proved.
#[verifier::external_body]
fn decode_hex(text: &[u8]) -> (result: Result<Vec<u8>, HexError>)
    ensures
        hex_decode_result(text@, result),
{
    match hex::decode(text) {
        Ok(bytes) => Ok(bytes),
        Err(hex::FromHexError::InvalidHexCharacter { c, index }) => Err(
            HexError::InvalidHexCharacter { c, index },
        ),
        Err(hex::FromHexError::OddLength) => Err(HexError::OddLength),
        Err(hex::FromHexError::InvalidStringLength) => Err(HexError::InvalidStringLength),
    }
}

/// `num_cpus::get`: the number of logical cores available to this process,
/// which the crate documents to be at least one. Trusted, not proved.
#[verifier::external_body]
fn logical_cpus() -> (count: usize)
    ensures
        count >= 1,
{
    num_cpus::get()
}

/// The target digest as bytes, decoded from its hexadecimal text.
pub fn parse_target(hex_text: &[u8]) -> (result: Result<Vec<u8>, SetupError>)
    ensures
        match result {
            Ok(target) => hex_decode_result(hex_text@, Ok(target)),
            Err(SetupError::MalformedDigest(error)) => hex_decode_result(hex_text@, Err(error)),
            Err(_) => false,
        },
{
    match decode_hex(hex_text) {
        Ok(target) => Ok(target),
        Err(error) => Err(SetupError::MalformedDigest(error)),
    }
}

/// The number of workers for a given parallelism: one unit less, which is
/// kept back for the monitor and the coordination.
pub open spec fn workers_for(parallelism: nat) -> nat {
    if parallelism >= 1 {
        (parallelism - 1) as nat
    } else {
        0
    }
}

/// The number of workers on a machine with `parallelism` logical cores, if it
/// is one that the keyspace can be split among.
pub fn worker_count(parallelism: usize) -> (result: Result<u64, SetupError>)
    ensures
        match result {
            Ok(workers) => 1 <= workers <= KEYSPACE_SIZE && workers == workers_for(
                parallelism as nat,
            ),
            Err(SetupError::NoWorkers) => parallelism <= 1,
            Err(SetupError::TooManyWorkers) => workers_for(parallelism as nat) > KEYSPACE_SIZE,
            Err(_) => false,
        },
{
    if parallelism <= 1 {
        Err(SetupError::NoWorkers)
    } else {
        let workers: u64 = (parallelism - 1) as u64;
        if workers > KEYSPACE_SIZE {
            Err(SetupError::TooManyWorkers)
        } else {
            Ok(workers)
        }
    }
}

/// All that the workers of one search are started with.
pub struct SearchPlan {
    /// The digest that is looked for.
    pub target: Vec<u8>,
    /// The partitions of the whole keyspace, one per worker, in ascending order.
    pub partitions: Vec<Partition>,
}

impl SearchPlan {
    /// The plan is the one for the target written as `hex_text` and for
    /// `workers` workers on the whole keyspace.
    pub open spec fn is_for(&self, hex_text: Seq<u8>, workers: nat) -> bool {
        &&& self.target@ == hex_decoded(hex_text)
        &&& self.partitions@.len() == workers
        &&& forall|index: int|
            0 <= index < workers ==> #[trigger] self.partitions@[index] == nth_partition(
                0,
                KEYSPACE_MAX as nat,
                workers,
                index as nat,
            )
        &&& forall|index: int| 0 <= index < workers ==> (#[trigger] self.partitions@[index]).wf()
    }
}

/// Sets a search up for a machine with `parallelism` logical cores: decodes
/// the target, then splits the whole keyspace among one worker less than
/// there are cores. A malformed target is reported before the worker count
/// is looked at.
pub fn plan_search(hex_text: &[u8], parallelism: usize) -> (result: Result<SearchPlan, SetupError>)
    ensures
        match result {
            Ok(plan) => {
                &&& hex_decode_result(hex_text@, Ok(plan.target))
                &&& 2 <= parallelism
                &&& workers_for(parallelism as nat) <= KEYSPACE_SIZE
                &&& plan.is_for(hex_text@, workers_for(parallelism as nat))
            },
            Err(SetupError::MalformedDigest(error)) => hex_decode_result(hex_text@, Err(error)),
            Err(SetupError::NoWorkers) => {
                &&& hex_text@.len() % 2 == 0
                &&& hex_digits_up_to(hex_text@, hex_text@.len() as int)
                &&& parallelism <= 1
            },
            Err(SetupError::TooManyWorkers) => {
                &&& hex_text@.len() % 2 == 0
                &&& hex_digits_up_to(hex_text@, hex_text@.len() as int)
                &&& workers_for(parallelism as nat) > KEYSPACE_SIZE
            },
        },
{
    match parse_target(hex_text) {
        Err(error) => Err(error),
        Ok(target) => match worker_count(parallelism) {
            Err(error) => Err(error),
            Ok(workers) => {
                let partitions = partition(0, KEYSPACE_MAX, workers);
                Ok(SearchPlan { target, partitions })
            },
        },
    }
}

/// Sets a search up for this machine: [`plan_search`] with the number of
/// logical cores that the machine reports. That number is not known
/// beforehand, so the contract speaks of the number of partitions that
/// came out.
pub fn prepare(hex_text: &[u8]) -> (result: Result<SearchPlan, SetupError>)
    ensures
        match result {
            Ok(plan) => {
                &&& hex_decode_result(hex_text@, Ok(plan.target))
                &&& 1 <= plan.partitions@.len() <= KEYSPACE_SIZE
                &&& plan.is_for(hex_text@, plan.partitions@.len())
            },
            Err(SetupError::MalformedDigest(error)) => hex_decode_result(hex_text@, Err(error)),
            Err(_) => hex_text@.len() % 2 == 0 && hex_digits_up_to(
                hex_text@,
                hex_text@.len() as int,
            ),
        },
{
    plan_search(hex_text, logical_cpus())
}

} // verus!
