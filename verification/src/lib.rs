//! Exhaustive preimage search over the 32-bit dotted-quad keyspace.
//!
//! Given a SHA-256 digest, the search hashes the text `a.b.c.d` of every
//! 32-bit candidate and reports the candidate whose digest is the target.
//! The keyspace is split into contiguous partitions, one per worker; the
//! workers share a processed counter and a found flag, which a progress
//! monitor reads.
//!
//! - [`encode`]: decimal digits of an octet, appended to a byte buffer;
//! - [`candidate`]: the dotted-quad text of a candidate;
//! - [`digest`]: the reusable SHA-256 engine and the digest comparison;
//! - [`partition`]: the partitioner and its coverage proof;
//! - [`shared`]: the processed counter and the found flag;
//! - [`worker`]: the scan of one partition as a state machine;
//! - [`search`]: what partitioner and workers guarantee together;
//! - [`monitor`]: the figures and the text of the status line;
//! - [`setup`]: target decoding, worker count and the plan of a search.

pub mod candidate;
pub mod digest;
pub mod encode;
pub mod monitor;
pub mod partition;
pub mod search;
pub mod setup;
pub mod shared;
pub mod worker;
