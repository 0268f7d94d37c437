//! The identity of a cassette: a number derived from the address of its post.

use vstd::prelude::*;

verus! {

/// The name-based identifier (version 5, in the namespace of URLs) of the
/// address `url`, as a number of 128 bits. It is a hash of the address and is
/// named here, not defined.
pub uninterp spec fn url_uuid(url: Seq<char>) -> u128;

/// Calls `uuid::Uuid::new_v5` with `Uuid::NAMESPACE_URL` and the bytes of
/// `url`, and reads the result with `Uuid::as_u128`. The contract claims only
/// that the identifier is a function of the address.
#[verifier::external_body]
pub(crate) fn uuid_of_url(url: &str) -> (id: u128)
    ensures
        id == url_uuid(url@),
{
    uuid::Uuid::new_v5(&uuid::Uuid::NAMESPACE_URL, url.as_bytes()).as_u128()
}

} // verus!
