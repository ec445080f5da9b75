//! The content hash that identifies a script in the script cache.

use sha3::Digest;
use sha3::Sha3_256;
use vstd::prelude::*;

verus! {

/// The SHA3-256 digest of a byte string.  The digest is a function of the
/// bytes alone; nothing further is assumed about it.
pub uninterp spec fn sha3_256_of(bytes: Seq<u8>) -> Seq<u8>;

/// Relies on sha3's `Sha3_256`: hashing is deterministic in the input bytes
/// and yields a 32-byte digest.
#[verifier::external_body]
pub fn script_hash(bytes: &Vec<u8>) -> (r: Vec<u8>)
    ensures
        r@ == sha3_256_of(bytes@),
        r@.len() == 32,
{
    let mut hasher = Sha3_256::new();
    hasher.update(bytes.as_slice());
    hasher.finalize().to_vec()
}

} // verus!
