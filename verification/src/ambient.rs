//! The two ambient inputs of the queue: the wall clock and fresh identifiers.
//! Every other part of the library takes their values as plain arguments, so
//! the logic is verified for every value either source can produce.

use vstd::prelude::*;

verus! {

/// Relies on `chrono::Utc::now`: the current wall-clock time in whole seconds
/// since the Unix epoch. The value depends on the machine's clock, so nothing
/// is assumed of it; callers state what holds of every outcome.
#[verifier::external_body]
pub(crate) fn now_timestamp() -> i64 {
    chrono::Utc::now().timestamp()
}

/// Relies on `uuid::Uuid::new_v4` and its `Display` form: a freshly drawn
/// random version-4 UUID, rendered hyphenated. The value is random, so nothing
/// is assumed of it; the store checks it against existing ids itself.
#[verifier::external_body]
pub(crate) fn fresh_job_id() -> String {
    uuid::Uuid::new_v4().to_string()
}

} // verus!
