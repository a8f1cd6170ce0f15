use vstd::prelude::*;
use hmac::{Hmac, KeyInit, Mac};
use sha2::Sha256;

verus! {

/// Number of bytes in a chunk digest and in a transfer MAC (both are
/// 256-bit values).
pub const DIGEST_BYTES: usize = 32;

/// The SHA-256 digest of a byte sequence, named but not written out:
/// a function of the bytes alone.
pub uninterp spec fn spec_chunk_digest(bytes: Seq<u8>) -> Seq<u8>;

/// The HMAC-SHA-256 tag over a message under a key, named but not
/// written out: a function of the key and the message alone.
pub uninterp spec fn spec_transfer_mac(key: Seq<u8>, msg: Seq<u8>) -> Seq<u8>;

/// Relies on ring::digest::digest with the SHA-256 algorithm: the
/// digest depends on the input bytes alone and is 32 bytes long.
#[verifier::external_body]
pub fn chunk_digest(bytes: &[u8]) -> (r: Vec<u8>)
    ensures
        r@ == spec_chunk_digest(bytes@),
        r@.len() == DIGEST_BYTES,
{
    ring::digest::digest(&ring::digest::SHA256, bytes).as_ref().to_vec()
}

/// Relies on hmac::Hmac over sha2::Sha256: the keyed MAC depends on
/// the key and the message alone and is 32 bytes long.  Per hmac's
/// source, new_from_slice accepts a key of any length, so the error
/// branch is unreachable.
#[verifier::external_body]
pub fn transfer_mac(key: &[u8], msg: &[u8]) -> (r: Vec<u8>)
    ensures
        r@ == spec_transfer_mac(key@, msg@),
        r@.len() == DIGEST_BYTES,
{
    let mut mac = <Hmac<Sha256>>::new_from_slice(key).expect("HMAC accepts keys of any length");
    mac.update(msg);
    mac.finalize().into_bytes().as_slice().to_vec()
}

/// Byte-for-byte equality of two slices.
pub fn bytes_eq(a: &[u8], b: &[u8]) -> (r: bool)
    ensures
        r == (a@ == b@),
{
    if a.len() != b.len() {
        return false;
    }
    let mut i: usize = 0;
    while i < a.len()
        invariant
            a@.len() == b@.len(),
            i <= a@.len(),
            forall|j: int| 0 <= j < i ==> a@[j] == b@[j],
        decreases a@.len() - i,
    {
        if a[i] != b[i] {
            return false;
        }
        i += 1;
    }
    proof {
        assert(a@ =~= b@);
    }
    true
}

/// Law: the chunk digest is deterministic — computing it twice over
/// the same bytes gives the same digest.
pub proof fn lemma_chunk_digest_deterministic(a: Seq<u8>, b: Seq<u8>)
    requires
        a == b,
    ensures
        spec_chunk_digest(a) == spec_chunk_digest(b),
{
}

/// Law: the transfer MAC is deterministic — the same key and payload
/// always give the same tag.
pub proof fn lemma_transfer_mac_deterministic(ka: Seq<u8>, kb: Seq<u8>, a: Seq<u8>, b: Seq<u8>)
    requires
        ka == kb,
        a == b,
    ensures
        spec_transfer_mac(ka, a) == spec_transfer_mac(kb, b),
{
}

} // verus!
