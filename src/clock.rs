use vstd::prelude::*;

verus! {

/// The current UTC time as RFC 3339 text.
///
/// Relies on chrono's `Utc::now` and `DateTime::to_rfc3339`. The result
/// depends on the clock, so nothing is stated of it. `Utc::now` panics
/// only when the system clock reads a time before 1970.
#[verifier::external_body]
pub(crate) fn utc_now_rfc3339() -> (r: String) {
    chrono::Utc::now().to_rfc3339()
}

/// A freshly generated random identifier.
///
/// Relies on uuid's `Uuid::new_v4` and its `Display`, which writes the
/// hyphenated form of 36 characters.
#[verifier::external_body]
pub(crate) fn new_vault_id() -> (r: String)
    ensures
        r@.len() == 36,
{
    uuid::Uuid::new_v4().to_string()
}

} // verus!
