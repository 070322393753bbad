use vstd::prelude::*;

verus! {

/// The SHA-512 digest of a byte string, a function of the bytes alone.
pub uninterp spec fn sha512_of(bytes: Seq<u8>) -> Seq<u8>;

/// Relies on sodiumoxide::crypto::hash::sha512::hash: the digest depends on
/// the input bytes alone and is always 64 bytes long.
#[verifier::external_body]
pub(crate) fn sha512_digest(bytes: &Vec<u8>) -> (r: Vec<u8>)
    ensures
        r@ == sha512_of(bytes@),
        r@.len() == 64,
{
    sodiumoxide::crypto::hash::sha512::hash(bytes.as_slice()).0.to_vec()
}

} // verus!
