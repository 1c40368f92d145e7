use vstd::prelude::*;

verus! {

/// The SHA-1 digest of a byte string.
pub uninterp spec fn sha1_digest(data: Seq<u8>) -> Seq<u8>;

/// Relies on `sha1::Sha1` through `Digest::digest`: the 20-byte SHA-1 digest
/// of `data`, which depends on the bytes alone.
#[verifier::external_body]
pub(crate) fn sha1_of(data: &[u8]) -> (r: [u8; 20])
    ensures
        r@ == sha1_digest(data@),
{
    let d = <sha1::Sha1 as sha1::Digest>::digest(data);
    let mut out = [0u8; 20];
    out.copy_from_slice(d.as_slice());
    out
}

} // verus!
