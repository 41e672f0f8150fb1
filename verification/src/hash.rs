//! The hash behind the integrity header: SHA-256, as the `ring` crate computes it.

use vstd::prelude::*;

verus! {

/// Number of leading hash bytes that the header keeps: forty bits, which fill
/// four symbols with none to spare.
pub const DIGEST_LEN: usize = 5;

/// The longest input that the hash takes, in bytes: its length in bits must
/// fit in 64 bits.
pub const MAX_HASH_INPUT: u64 = 0x1FFF_FFFF_FFFF_FFFF;

/// The SHA-256 hash of `data`.
///
/// Nothing is stated of its value; it is a function of `data` alone.
pub uninterp spec fn sha256(data: Seq<u8>) -> [u8; 32];

/// The digest that the header carries for `data`: the first five bytes of its hash.
pub open spec fn digest_of(data: Seq<u8>) -> Seq<u8> {
    sha256(data)@.take(DIGEST_LEN as int)
}

/// Calls `ring::digest::digest` with `ring::digest::SHA256`.
///
/// Claimed and not proved: the 32 bytes that come back are the SHA-256 hash of
/// `data`, the same for the same bytes. `ring` panics where the length in bits
/// overflows 64 bits, so such inputs are left out.
#[verifier::external_body]
fn sha256_digest(data: &[u8]) -> (hash: [u8; 32])
    requires
        data@.len() <= MAX_HASH_INPUT,
    ensures
        hash == sha256(data@),
{
    let digest = ring::digest::digest(&ring::digest::SHA256, data);
    let mut hash = [0u8; 32];
    hash.copy_from_slice(digest.as_ref());
    hash
}

/// The leading five bytes of a hash.
pub fn truncate_hash(hash: &[u8; 32]) -> (digest: [u8; 5])
    ensures
        digest@ == hash@.take(DIGEST_LEN as int),
{
    let digest: [u8; 5] = [hash[0], hash[1], hash[2], hash[3], hash[4]];
    assert(digest@ =~= hash@.take(DIGEST_LEN as int));
    digest
}

/// The digest of `data`, as the header carries it.
pub fn digest(data: &[u8]) -> (digest: [u8; 5])
    requires
        data@.len() <= MAX_HASH_INPUT,
    ensures
        digest@ == digest_of(data@),
{
    let hash = sha256_digest(data);
    truncate_hash(&hash)
}

} // verus!
