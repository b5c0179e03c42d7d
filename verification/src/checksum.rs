//! The framing checksum: the first four bytes of the double SHA-256 digest
//! of the payload bytes. The digest itself is the sha2 crate's work and is
//! only named here; everything downstream of the name is verified.

use vstd::prelude::*;

use sha2::Digest;

verus! {

/// The SHA-256 digest of a byte sequence: a function of the input bytes
/// alone, computed by the sha2 crate and left undefined here.
pub uninterp spec fn sha256_of(data: Seq<u8>) -> Seq<u8>;

/// The first four bytes of `s` (zero-filled past its end, so the result
/// always has length four).
pub open spec fn first4(s: Seq<u8>) -> Seq<u8> {
    Seq::new(4, |i: int| if i < s.len() { s[i] } else { 0u8 })
}

/// The envelope checksum of a payload: the first four bytes of its double
/// SHA-256 digest.
pub open spec fn checksum_of(payload: Seq<u8>) -> Seq<u8> {
    first4(sha256_of(sha256_of(payload)))
}

/// Relies on sha2::Sha256::digest: the 32-byte SHA-256 digest of the input,
/// a function of the input bytes alone.
#[verifier::external_body]
fn sha256(data: &[u8]) -> (r: Vec<u8>)
    ensures
        r@ == sha256_of(data@),
        r@.len() == 32,
{
    sha2::Sha256::digest(data).to_vec()
}

/// The checksum of `src`: double SHA-256, truncated to four bytes.
pub fn get_check_sum(src: &[u8]) -> (r: Vec<u8>)
    ensures
        r@ == checksum_of(src@),
        r@.len() == 4,
{
    let first = sha256(src);
    let mut second = sha256(first.as_slice());
    second.truncate(4);
    proof {
        assert(second@ =~= checksum_of(src@));
    }
    second
}

} // verus!
