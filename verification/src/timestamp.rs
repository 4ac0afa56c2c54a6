//! Points in time and the spans between them, held as plain numbers.
use time::format_description::well_known::Rfc3339;
use time::OffsetDateTime;
use vstd::prelude::*;

verus! {

/// The first Unix second of the calendar: the start of the year -9999.
pub const UNIX_SECONDS_START: i64 = -377_705_116_800;

/// The first Unix second past the calendar: the start of the year 10000.
pub const UNIX_SECONDS_END: i64 = 253_402_300_800;

/// A point in time: whole seconds since the Unix epoch, the nanoseconds past that second, and the
/// offset from UTC, in seconds to the east, with which it was written.
#[derive(Clone, Copy, Debug, PartialEq, Eq, Structural)]
pub struct Timestamp {
    pub unix_seconds: i64,
    pub nanosecond: u32,
    pub offset_seconds: i32,
}

/// A span of time in nanoseconds, negative where it runs backwards.
#[derive(Clone, Copy, Debug, PartialEq, Eq, Structural)]
pub struct TimeSpan {
    pub nanoseconds: i128,
}

impl Timestamp {
    /// The nanoseconds since the Unix epoch. The offset plays no part: it says how the point in
    /// time was written, not which one it is.
    pub open spec fn unix_nanos(self) -> int {
        self.unix_seconds * 1_000_000_000 + self.nanosecond
    }

    /// The span from `earlier` to `self`.
    pub fn since(&self, earlier: &Timestamp) -> (span: TimeSpan)
        ensures
            span.nanoseconds == self.unix_nanos() - earlier.unix_nanos(),
            span.nanoseconds == (self.unix_seconds - earlier.unix_seconds) * 1_000_000_000 + (
            self.nanosecond - earlier.nanosecond),
    {
        let end: i128 = self.unix_seconds as i128 * 1_000_000_000 + self.nanosecond as i128;
        let start: i128 = earlier.unix_seconds as i128 * 1_000_000_000 + earlier.nanosecond as i128;
        TimeSpan { nanoseconds: end - start }
    }
}

/// A second is a thousand million nanoseconds, and the offset makes no difference to which point in
/// time it is.
pub proof fn law_seconds_and_nanoseconds_add_up(a: Timestamp, b: Timestamp)
    ensures
        a.unix_nanos() - b.unix_nanos() == (a.unix_seconds - b.unix_seconds) * 1_000_000_000 + (
        a.nanosecond - b.nanosecond),
        a.unix_seconds == b.unix_seconds && a.nanosecond == b.nanosecond ==> a.unix_nanos()
            == b.unix_nanos(),
{
}

/// `time::error::ComponentRange`: a value that lies outside of what the calendar can hold.
#[verifier::external_type_specification]
#[verifier::external_body]
pub struct ExComponentRange(time::error::ComponentRange);

/// `time::error::Parse`: why a text is no date and time.
#[verifier::external_type_specification]
#[verifier::external_body]
pub struct ExParse(time::error::Parse);

/// The point in time that an RFC 3339 text denotes, as `time` reads it.
pub uninterp spec fn rfc3339_timestamp(text: Seq<char>) -> Option<Timestamp>;

/// Calls `OffsetDateTime::from_unix_timestamp` of `time`: the point in time, in UTC, that many
/// seconds after the Unix epoch. It fails where that lies outside of the years -9999 to 9999.
#[verifier::external_body]
pub(crate) fn from_unix_timestamp(seconds: i64) -> (made: Result<
    Timestamp,
    time::error::ComponentRange,
>)
    ensures
        made is Ok <==> UNIX_SECONDS_START <= seconds < UNIX_SECONDS_END,
        made matches Ok(t) ==> t == (Timestamp {
            unix_seconds: seconds,
            nanosecond: 0,
            offset_seconds: 0,
        }),
{
    let made = OffsetDateTime::from_unix_timestamp(seconds)?;
    Ok(Timestamp {
        unix_seconds: made.unix_timestamp(),
        nanosecond: made.nanosecond(),
        offset_seconds: made.offset().whole_seconds(),
    })
}

/// Calls `OffsetDateTime::parse` of `time` with the format `Rfc3339`. The contract names the
/// result; what a text denotes is left to the RFC.
#[verifier::external_body]
pub(crate) fn parse_rfc3339(text: &str) -> (parsed: Result<Timestamp, time::error::Parse>)
    ensures
        match parsed {
            Ok(t) => rfc3339_timestamp(text@) == Some(t),
            Err(_) => rfc3339_timestamp(text@) is None,
        },
{
    let parsed = OffsetDateTime::parse(text, &Rfc3339)?;
    Ok(Timestamp {
        unix_seconds: parsed.unix_timestamp(),
        nanosecond: parsed.nanosecond(),
        offset_seconds: parsed.offset().whole_seconds(),
    })
}

} // verus!
