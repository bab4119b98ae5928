//! Byte-level helpers that the pallets share: SCALE encoding of the values
//! that are hashed, and the Blake2 hash itself.

use parity_scale_codec::Encode;
use vstd::prelude::*;

verus! {

/// The eight little-endian bytes of `n`, as SCALE encodes a `u64`.
pub open spec fn le_bytes_u64(n: u64) -> Seq<u8> {
    Seq::new(8, |i: int| ((n as int / pow256(i)) % 256) as u8)
}

/// `256^i` for `0 <= i`.
pub open spec fn pow256(i: int) -> int
    decreases i,
{
    if i <= 0 {
        1
    } else {
        256 * pow256(i - 1)
    }
}

/// What `blake2_128` returns for `data`: a 16-byte Blake2b digest.
pub uninterp spec fn blake2_128_of(data: Seq<u8>) -> Seq<u8>;

/// Calls `sp_io::hashing::blake2_128`, the 128-bit Blake2b hash. The
/// contract claims that the digest depends on the bytes alone (it is named
/// `blake2_128_of`) and has sixteen bytes, as the array type shows.
#[verifier::external_body]
pub(crate) fn blake2_128(data: &[u8]) -> (digest: [u8; 16])
    ensures
        digest@ == blake2_128_of(data@),
{
    sp_io::hashing::blake2_128(data)
}

/// Calls `parity_scale_codec::Encode::encode` on the pair `(seed, block)`.
/// The contract claims SCALE's layout for it: the 32 bytes of the array as
/// they are (a fixed-size array has no length prefix), followed by the
/// little-endian bytes of the `u64`.
#[verifier::external_body]
pub(crate) fn scale_encode_seed_and_block(seed: [u8; 32], block: u64) -> (bytes: Vec<u8>)
    ensures
        bytes@ == seed@ + le_bytes_u64(block),
{
    (seed, block).encode()
}

} // verus!
