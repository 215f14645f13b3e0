use vstd::prelude::*;
use tiny_keccak::Hasher;

verus! {

/// The 32-byte Keccak-256 digest of a byte string.
pub uninterp spec fn keccak_of(data: Seq<u8>) -> Seq<u8>;

/// Relies on tiny_keccak's `Keccak::v256`: the digest of the bytes fed to
/// `update`, written by `finalize` into a 32-byte buffer.
#[verifier::external_body]
pub fn keccak_256(input: &[u8]) -> (r: [u8; 32])
    ensures
        r@ == keccak_of(input@),
{
    let mut out = [0u8; 32];
    let mut k = tiny_keccak::Keccak::v256();
    k.update(input);
    k.finalize(&mut out);
    out
}

/// The hash function under which trie nodes are addressed.
#[derive(Debug)]
pub struct KeccakHasher;

impl KeccakHasher {
    pub fn hash(x: &[u8]) -> (r: [u8; 32])
        ensures
            r@ == keccak_of(x@),
    {
        keccak_256(x)
    }
}

} // verus!
