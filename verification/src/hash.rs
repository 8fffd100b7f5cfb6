//! SHA-512, computed by the `sha2` crate.

use sha2::Digest;
use vstd::prelude::*;

verus! {

/// The SHA-512 digest of `data`: 64 bytes that depend on `data` alone.
pub uninterp spec fn sha512_digest(data: Seq<u8>) -> Seq<u8>;

/// `sha2::Sha512` fed with `data` and finalized. The contract gives the
/// digest its name and says nothing of what it holds.
#[verifier::external_body]
pub(crate) fn sha512(data: &[u8]) -> (digest: [u8; 64])
    ensures
        digest@ == sha512_digest(data@),
{
    sha2::Sha512::new().chain_update(data).finalize().into()
}

} // verus!
