//! Fresh identifiers for transcripts and chapters.

use vstd::prelude::*;

verus! {

/// Relies on `uuid::Uuid::new_v4` and `Uuid`'s `Display`: a freshly
/// generated random identifier in hyphenated form, which is always 36
/// characters. Nothing else can be promised of a random value.
#[verifier::external_body]
pub(crate) fn fresh_id() -> (r: String)
    ensures
        r@.len() == 36,
{
    uuid::Uuid::new_v4().to_string()
}

} // verus!
