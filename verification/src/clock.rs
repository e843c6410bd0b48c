//! Wall-clock timestamps for command and task records.

use vstd::prelude::*;

verus! {

/// Reads the current UTC time as an RFC 3339 timestamp.
///
/// Relies on `chrono::Utc::now` for the current time, formatted with
/// `chrono::DateTime::to_rfc3339`; the formatted timestamp is never empty.
/// Nothing more is assumed: the clock may move arbitrarily between calls.
#[verifier::external_body]
pub(crate) fn now_rfc3339() -> (r: String)
    ensures
        r@.len() > 0,
{
    chrono::Utc::now().to_rfc3339()
}

} // verus!
