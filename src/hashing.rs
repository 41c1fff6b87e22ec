use vstd::prelude::*;

verus! {

/// The 256-bit Blake2 digest of a byte string.
pub uninterp spec fn blake2_256_of(data: Seq<u8>) -> Seq<u8>;

/// The 128-bit Blake2 digest of a byte string.
pub uninterp spec fn blake2_128_of(data: Seq<u8>) -> Seq<u8>;

/// Relies on sp_io::hashing::blake2_256: a 32-byte Blake2 digest that depends
/// on the bytes alone.
#[verifier::external_body]
pub(crate) fn blake2_256(data: &Vec<u8>) -> (r: [u8; 32])
    ensures
        r@ == blake2_256_of(data@),
{
    sp_io::hashing::blake2_256(data.as_slice())
}

/// Relies on sp_io::hashing::blake2_128: a 16-byte Blake2 digest that depends
/// on the bytes alone.
#[verifier::external_body]
pub(crate) fn blake2_128(data: &Vec<u8>) -> (r: [u8; 16])
    ensures
        r@ == blake2_128_of(data@),
{
    sp_io::hashing::blake2_128(data.as_slice())
}

} // verus!
