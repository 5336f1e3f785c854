//! Identifiers and times.

use vstd::prelude::*;

verus! {

/// Whether an identifier is as long as new ones are.
pub open spec fn fresh_like(id: Seq<char>) -> bool {
    id.len() == 36
}

/// `uuid::Uuid::new_v4` in its hyphenated form: a random identifier. Stated is what holds
/// of each: that it has 36 characters.
#[verifier::external_body]
pub(crate) fn fresh_id() -> (r: String)
    ensures
        fresh_like(r@),
{
    uuid::Uuid::new_v4().to_string()
}

/// `chrono::Utc::now` in the form of RFC 3339: the time of the call, of which nothing
/// is stated.
#[verifier::external_body]
pub(crate) fn now() -> String {
    chrono::Utc::now().to_rfc3339()
}

} // verus!
