//! The time of day.

use vstd::prelude::*;

verus! {

/// Reads the clock of the machine and gives the moment as milliseconds since the Unix
/// epoch: `chrono::DateTime::<Utc>::from` makes a moment of the system time, before
/// the epoch as well as after it, and `DateTime::timestamp_millis` counts it out.
/// Nothing is claimed of the number: two readings may differ, and a clock may be set
/// wrong.
#[verifier::external_body]
pub(crate) fn now_millis() -> (millis: i64) {
    chrono::DateTime::<chrono::Utc>::from(std::time::SystemTime::now()).timestamp_millis()
}

/// Reads the clock of the machine and writes the moment out in local time:
/// `chrono::DateTime::<Local>::from` makes a moment of the system time, before the
/// epoch as well as after it, and `DateTime::to_rfc3339` writes it. Nothing is
/// claimed of the text: it depends on the moment and on the time zone of the machine.
#[verifier::external_body]
pub(crate) fn local_time_text() -> (text: String) {
    chrono::DateTime::<chrono::Local>::from(std::time::SystemTime::now()).to_rfc3339()
}

} // verus!
