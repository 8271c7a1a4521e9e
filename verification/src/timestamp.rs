//! Instants of time, as the model records them.

use vstd::prelude::*;

verus! {

/// An instant: whole seconds since 1970-01-01 00:00:00 UTC, and the
/// nanoseconds past that second.
#[derive(Clone, Copy, Debug, PartialEq, Eq, Structural)]
pub struct Timestamp {
    pub seconds: i64,
    pub nanoseconds: u32,
}

/// The text `YYYY-MM-DD HH:MM:SS` of an instant in UTC, as chrono prints it;
/// nothing for an instant outside the calendar that chrono covers.
pub uninterp spec fn calendar_text(seconds: int, nanoseconds: int) -> Option<Seq<char>>;

/// Calls chrono's `DateTime::from_timestamp` and formats what it gives with
/// `%Y-%m-%d %H:%M:%S`. The contract only names the text: it is a function
/// of the two numbers.
#[verifier::external_body]
fn format_instant(seconds: i64, nanoseconds: u32) -> (r: Option<String>)
    ensures
        r is Some == calendar_text(seconds as int, nanoseconds as int) is Some,
        r is Some ==> calendar_text(seconds as int, nanoseconds as int) == Some(r.unwrap()@),
{
    match chrono::DateTime::from_timestamp(seconds, nanoseconds) {
        Some(instant) => Some(instant.naive_utc().format("%Y-%m-%d %H:%M:%S").to_string()),
        None => None,
    }
}

/// Reads the clock through chrono's `Utc::now`, and takes the instant apart
/// with `timestamp` and `timestamp_subsec_nanos`. Which instant comes back
/// depends on the clock. `Utc::now` makes its result with
/// `DateTime::from_timestamp`, from whole seconds and the fraction of a
/// second that std's `Duration` holds, and returns no instant for which that
/// fails; the two getters give those numbers back. So the contract claims
/// that the calendar covers the instant and that its nanoseconds stay below
/// one second, and nothing else.
#[verifier::external_body]
fn read_clock() -> (r: Timestamp)
    ensures
        calendar_text(r.seconds as int, r.nanoseconds as int) is Some,
        r.nanoseconds < 1_000_000_000,
{
    let now = chrono::Utc::now();
    Timestamp { seconds: now.timestamp(), nanoseconds: now.timestamp_subsec_nanos() }
}

impl Timestamp {
    /// The current instant, as the clock gives it: an instant that the
    /// calendar covers, so that it has a text, with its nanoseconds below
    /// one second. Which instant is left open.
    pub fn now() -> (r: Timestamp)
        ensures
            r.spec_text() is Some,
            r.nanoseconds < 1_000_000_000,
    {
        read_clock()
    }

    /// What the instant reads as in a table, where the calendar covers it.
    pub open spec fn spec_text(self) -> Option<Seq<char>> {
        calendar_text(self.seconds as int, self.nanoseconds as int)
    }

    /// The text `YYYY-MM-DD HH:MM:SS` of the instant, if the calendar covers it.
    pub fn format(&self) -> (r: Option<String>)
        ensures
            r is Some == self.spec_text() is Some,
            r is Some ==> self.spec_text() == Some(r.unwrap()@),
    {
        format_instant(self.seconds, self.nanoseconds)
    }
}

} // verus!
