//! Values supplied by the environment — the current time and fresh
//! identifiers — and the declarations that let opaque JSON payloads pass
//! through the core untouched.

use vstd::prelude::*;

verus! {

/// `serde_json::Value`, carried opaquely through attestation claims and
/// custom phase payloads; the core stores such values and never inspects
/// them.
#[verifier::external_type_specification]
#[verifier::external_body]
pub struct ExValue(serde_json::Value);

/// Relies on chrono's `Utc::now` and `DateTime::timestamp`: the current
/// time as seconds since the Unix epoch.  Nothing is assumed of the
/// value; callers state what holds whatever time comes back.
#[verifier::external_body]
pub(crate) fn now_timestamp() -> i64 {
    chrono::Utc::now().timestamp()
}

/// Relies on uuid's `Uuid::new_v4` and its `Display` form: a fresh random
/// identifier.  Nothing is assumed of the value; callers state what holds
/// whatever identifier comes back.
#[verifier::external_body]
pub(crate) fn fresh_id() -> String {
    uuid::Uuid::new_v4().to_string()
}

/// Relies on str's `PartialEq`: two string slices are equal exactly when
/// their character sequences are.
#[verifier::external_body]
pub(crate) fn str_eq(a: &str, b: &str) -> (r: bool)
    ensures
        r == (a@ == b@),
{
    a == b
}

} // verus!
