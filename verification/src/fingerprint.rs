//! Content fingerprints: a deterministic, collision-resistant digest over a
//! byte payload, rendered as a lowercase hex string. Two separate dedup
//! checks compare these fingerprints: the monitor against the last emitted
//! one, and the store against every persisted one.

use vstd::prelude::*;

verus! {

/// The digest of a byte payload, as the sequence of hex characters the
/// hasher renders it to. The digest is a function of the payload alone,
/// which is what makes fingerprint-based deduplication sound.
pub uninterp spec fn fingerprint_of(data: Seq<u8>) -> Seq<char>;

/// Relies on `blake3::hash` and `blake3::Hash::to_hex`: a 256-bit keyless
/// digest of the input bytes, rendered as 64 lowercase hex characters. The
/// digest depends on the input bytes alone.
#[verifier::external_body]
pub fn compute_hash(data: &[u8]) -> (r: String)
    ensures
        r@ == fingerprint_of(data@),
        r@.len() == 64,
{
    blake3::hash(data).to_hex().as_str().to_owned()
}

/// Identical byte payloads always yield identical fingerprints: the
/// fingerprint is a function of the payload and of nothing else.
pub proof fn lemma_fingerprint_deterministic(a: Seq<u8>, b: Seq<u8>)
    requires
        a == b,
    ensures
        fingerprint_of(a) == fingerprint_of(b),
{
}

} // verus!
