//! The digest engine: one reusable SHA-256 hasher, and the byte-exact
//! comparison of a digest with the target.

use vstd::prelude::*;
use sha2::Digest;

verus! {

/// Length in bytes of a SHA-256 digest.
pub const DIGEST_LEN: usize = 32;

/// The hasher of the `sha2` crate. Verus sees nothing inside it; what it has
/// absorbed is spoken of through [`absorbed`].
#[verifier::external_type_specification]
#[verifier::external_body]
pub struct ExSha256(sha2::Sha256);

/// The SHA-256 digest of a message, as `sha2` computes it. Not defined here:
/// the library's contracts speak of this name and rest on the crate for its
/// value.
pub uninterp spec fn sha256(message: Seq<u8>) -> Seq<u8>;

/// The bytes that a hasher has been fed since it was made or last reset.
pub uninterp spec fn absorbed(hasher: sha2::Sha256) -> Seq<u8>;

/// `sha2::Sha256::new` (the `Digest` trait): a hasher in its initial state,
/// which has been fed nothing. Trusted, not proved.
#[verifier::external_body]
fn hasher_new() -> (hasher: sha2::Sha256)
    ensures
        absorbed(hasher) == Seq::<u8>::empty(),
{
    sha2::Sha256::new()
}

/// `Digest::update` on `sha2::Sha256`: the hasher has been fed `data` after
/// what it had been fed before. Trusted, not proved.
#[verifier::external_body]
fn hasher_update(hasher: &mut sha2::Sha256, data: &[u8])
    ensures
        absorbed(*final(hasher)) == absorbed(*old(hasher)) + data@,
{
    hasher.update(data)
}

/// `Digest::finalize_reset` on `sha2::Sha256`: returns the SHA-256 digest of
/// everything fed since the last reset, as 32 bytes, and leaves the hasher in
/// its initial state. Trusted, not proved.
#[verifier::external_body]
fn hasher_finalize_reset(hasher: &mut sha2::Sha256) -> (digest: [u8; 32])
    ensures
        digest@ == sha256(absorbed(*old(hasher))),
        absorbed(*final(hasher)) == Seq::<u8>::empty(),
{
    hasher.finalize_reset().into()
}

/// A hasher that is fed bytes, gives their digest and is at once ready for the
/// next message, so one instance serves a whole scan.
pub struct DigestEngine {
    hasher: sha2::Sha256,
}

impl DigestEngine {
    /// The bytes fed since the engine was made or last finalized.
    pub closed spec fn pending(&self) -> Seq<u8> {
        absorbed(self.hasher)
    }

    /// The engine holds no bytes of an unfinished message.
    pub open spec fn ready(&self) -> bool {
        self.pending() == Seq::<u8>::empty()
    }

    /// A fresh engine, ready for its first message.
    pub fn new() -> (engine: Self)
        ensures
            engine.ready(),
    {
        DigestEngine { hasher: hasher_new() }
    }

    /// Feeds `data` to the engine, after what it was fed before.
    pub fn update(&mut self, data: &[u8])
        ensures
            final(self).pending() == old(self).pending() + data@,
    {
        hasher_update(&mut self.hasher, data);
    }

    /// Gives the digest of the bytes fed so far and makes the engine ready for
    /// the next message.
    pub fn finalize_reset(&mut self) -> (digest: [u8; 32])
        ensures
            digest@ == sha256(old(self).pending()),
            final(self).ready(),
    {
        hasher_finalize_reset(&mut self.hasher)
    }

    /// Feeds one whole message to a ready engine and gives its digest; the
    /// engine is ready again afterwards.
    pub fn digest(&mut self, message: &[u8]) -> (digest: [u8; 32])
        requires
            old(self).ready(),
        ensures
            digest@ == sha256(message@),
            final(self).ready(),
    {
        self.update(message);
        assert(self.pending() =~= message@);
        self.finalize_reset()
    }
}

/// Whether a digest is the target: the same length and the same byte at every
/// place. A target of another length matches nothing.
pub fn digest_matches(digest: &[u8; 32], target: &[u8]) -> (same: bool)
    ensures
        same == (digest@ == target@),
{
    if target.len() != DIGEST_LEN {
        return false;
    }
    let mut i: usize = 0;
    while i < DIGEST_LEN
        invariant
            i <= DIGEST_LEN,
            target@.len() == DIGEST_LEN,
            digest@.len() == DIGEST_LEN,
            forall|k: int| 0 <= k < i ==> digest@[k] == target@[k],
        decreases DIGEST_LEN - i,
    {
        if digest[i] != target[i] {
            return false;
        }
        i += 1;
    }
    assert(digest@ =~= target@);
    true
}

} // verus!
