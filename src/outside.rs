//! The calls into outside crates that the store makes: identifiers from
//! `uuid`, the clock from `chrono`.
use vstd::prelude::*;

verus! {

/// Relies on `uuid::Uuid::new_v4` and its `Display`, which writes the
/// hyphenated form: 36 characters. The value is random; nothing more is known.
#[verifier::external_body]
pub(crate) fn fresh_id() -> (r: String)
    ensures
        r@.len() == 36,
{
    uuid::Uuid::new_v4().to_string()
}

/// Relies on `chrono::Utc::now`, written as `YYYY-MM-DD HH:MM:SS` by
/// `chrono::NaiveDateTime::format`. It reads the clock, so nothing is promised
/// of the text.
#[verifier::external_body]
pub(crate) fn now_timestamp() -> (r: String) {
    chrono::Utc::now().naive_utc().format("%Y-%m-%d %H:%M:%S").to_string()
}

} // verus!
