//! Instants on the UTC time line and the age, in whole days, between two of
//! them.

use vstd::prelude::*;

verus! {

/// The nanoseconds in one day.
pub const NANOS_PER_DAY: i128 = 86_400_000_000_000;

/// The nanoseconds in one second.
pub const NANOS_PER_SECOND: i128 = 1_000_000_000;

/// An instant: whole seconds since 1970-01-01T00:00:00Z, and the nanoseconds
/// past that second. Within a leap second the nanoseconds are 1,000,000,000
/// or more; the instant then counts as that much past the second before.
#[derive(Clone, Copy, Debug, PartialEq, Eq, Structural)]
pub struct Timestamp {
    pub secs: i64,
    pub nanos: u32,
}

/// What `chrono::DateTime::parse_from_rfc3339` makes of a text: `None` where
/// it rejects the text, else the instant it read, as the seconds since the
/// epoch and the nanoseconds past that second.
pub uninterp spec fn rfc3339_instant(text: Seq<char>) -> Option<(i64, u32)>;

/// The instant that an RFC 3339 text denotes, if it denotes one.
pub open spec fn parsed_timestamp(text: Seq<char>) -> Option<Timestamp> {
    match rfc3339_instant(text) {
        Some(read) => Some(Timestamp { secs: read.0, nanos: read.1 }),
        None => None,
    }
}

/// The whole days between two instants, whichever comes first: the distance
/// in nanoseconds, divided by the length of a day and rounded down.
pub open spec fn age_in_days(created: Timestamp, now: Timestamp) -> nat {
    let distance = now.nanos_since_epoch() - created.nanos_since_epoch();
    if distance >= 0 {
        (distance / (NANOS_PER_DAY as int)) as nat
    } else {
        ((-distance) / (NANOS_PER_DAY as int)) as nat
    }
}

/// An age in whole days fits in 64 bits, whatever the two instants are.
pub proof fn lemma_age_in_days_bounded(created: Timestamp, now: Timestamp)
    ensures
        age_in_days(created, now) <= u64::MAX,
{
}

/// The error of chrono's parsers, `chrono::ParseError`. Nothing is known of
/// a value of it.
#[verifier::external_type_specification]
#[verifier::external_body]
pub struct ExParseError(chrono::ParseError);

/// Calls `chrono::DateTime::parse_from_rfc3339` and reads what it gives with
/// `DateTime::timestamp` and `DateTime::timestamp_subsec_nanos`. The contract
/// claims only that the outcome is a function of the text: it gives that
/// function a name and says nothing of its values.
#[verifier::external_body]
fn chrono_parse_rfc3339(text: &str) -> (r: Result<(i64, u32), chrono::ParseError>)
    ensures
        r matches Ok(read) ==> rfc3339_instant(text@) == Some(read),
        r is Err ==> rfc3339_instant(text@) is None,
{
    match chrono::DateTime::parse_from_rfc3339(text) {
        Ok(read) => Ok((read.timestamp(), read.timestamp_subsec_nanos())),
        Err(error) => Err(error),
    }
}

impl Timestamp {
    /// The instant as nanoseconds since the epoch.
    pub open spec fn nanos_since_epoch(self) -> int {
        self.secs * 1_000_000_000 + self.nanos
    }

    /// The instant `nanos` nanoseconds past the second `secs`.
    pub fn new(secs: i64, nanos: u32) -> (r: Timestamp)
        ensures
            r == (Timestamp { secs, nanos }),
    {
        Timestamp { secs, nanos }
    }

    /// Reads an RFC 3339 date and time, such as `2021-01-01T00:00:00Z`.
    pub fn parse(text: &str) -> (r: Option<Timestamp>)
        ensures
            r == parsed_timestamp(text@),
    {
        match chrono_parse_rfc3339(text) {
            Ok(read) => Some(Timestamp { secs: read.0, nanos: read.1 }),
            Err(_) => None,
        }
    }
}

/// The age in whole days of something created at `created`, seen at `now`.
/// The age is never negative: an instant of creation that lies after `now`
/// counts by its distance as well.
pub fn age_days(created: &Timestamp, now: &Timestamp) -> (r: u64)
    ensures
        r == age_in_days(*created, *now),
{
    let from: i128 = (created.secs as i128) * NANOS_PER_SECOND + (created.nanos as i128);
    let to: i128 = (now.secs as i128) * NANOS_PER_SECOND + (now.nanos as i128);
    let distance: i128 = if to >= from {
        to - from
    } else {
        from - to
    };
    let days: i128 = distance / NANOS_PER_DAY;
    days as u64
}

} // verus!
