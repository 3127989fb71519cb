//! The 16-byte name hash used to derive storage addresses.

use vstd::prelude::*;

verus! {

/// The 128-bit xx-hash of a byte string; fixed by the input bytes alone.
pub uninterp spec fn spec_twox128(b: Seq<u8>) -> Seq<u8>;

/// Relies on `sp_io::hashing::twox_128`: a 16-byte digest computed from the
/// input bytes alone, identical on every call.
#[verifier::external_body]
pub fn twox_128(data: &[u8]) -> (r: Vec<u8>)
    ensures
        r@ == spec_twox128(data@),
        r@.len() == 16,
{
    sp_io::hashing::twox_128(data).to_vec()
}

} // verus!
