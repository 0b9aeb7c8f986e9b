//! SHA-256 through the `sha2` crate.

use vstd::prelude::*;
use sha2::Digest;

verus! {

/// A running `sha2::Sha256` hasher. Verus cannot read the crate's type, so
/// the hasher is held here and is known only by the bytes it has been fed.
#[verifier::external_body]
pub struct Sha256State {
    inner: sha2::Sha256,
}

/// The bytes a hasher has been fed, in order.
pub uninterp spec fn sha256_fed(h: Sha256State) -> Seq<u8>;

/// The lower-case hex spelling of the SHA-256 digest of `data`
/// (`format!("{:x}", ..)` of the 32-byte digest).
pub uninterp spec fn sha256_hex(data: Seq<u8>) -> Seq<char>;

/// `sha2::Sha256::new`: a hasher that has been fed nothing.
#[verifier::external_body]
pub(crate) fn sha256_new() -> (h: Sha256State)
    ensures
        sha256_fed(h) == Seq::<u8>::empty(),
{
    Sha256State { inner: sha2::Sha256::new() }
}

/// `Digest::update`: the hasher is fed `data` after what it had.
#[verifier::external_body]
pub(crate) fn sha256_update(h: &mut Sha256State, data: &[u8])
    ensures
        sha256_fed(*final(h)) == sha256_fed(*old(h)) + data@,
{
    h.inner.update(data);
}

/// `Digest::finalize` spelled with `{:x}`: the hex digest of all the bytes
/// fed.
#[verifier::external_body]
pub(crate) fn sha256_finish_hex(h: Sha256State) -> (s: String)
    ensures
        s@ == sha256_hex(sha256_fed(h)),
{
    format!("{:x}", h.inner.finalize())
}

/// `Sha256::digest` spelled with `{:x}`: the hex digest of `data`.
#[verifier::external_body]
pub(crate) fn sha256_hex_of(data: &[u8]) -> (s: String)
    ensures
        s@ == sha256_hex(data@),
{
    format!("{:x}", sha2::Sha256::digest(data))
}

} // verus!
