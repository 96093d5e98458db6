//! Identifiers of the remote service.

use vstd::prelude::*;

verus! {

/// The 128-bit value of the UUID that `text` writes, in any of the forms that
/// the `uuid` crate reads, or nothing where it writes none.
pub uninterp spec fn uuid_value(text: Seq<char>) -> Option<u128>;

/// Calls `uuid::Uuid::parse_str`: the value of the UUID that `text` writes,
/// where it writes one. The result is taken to depend on the text alone.
#[verifier::external_body]
pub(crate) fn parse_uuid(text: &str) -> (id: Option<u128>)
    ensures
        id == uuid_value(text@),
{
    match uuid::Uuid::parse_str(text) {
        Ok(id) => Some(id.as_u128()),
        Err(_) => None,
    }
}

} // verus!
