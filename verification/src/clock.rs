//! Instants, and how the client writes them for a person.
use vstd::prelude::*;

verus! {

/// An instant as the server reports it (a date and time in UTC): whole
/// seconds since the Unix epoch, and nanoseconds past that second.
#[derive(Clone, Copy, Debug, PartialEq, Eq, Structural)]
pub struct Stamp {
    pub secs: i64,
    pub nanos: u32,
}

/// `a` is strictly earlier than `b`.
pub open spec fn earlier(a: Stamp, b: Stamp) -> bool {
    a.secs < b.secs || (a.secs == b.secs && a.nanos < b.nanos)
}

/// `a` is strictly earlier than `b`.
pub fn is_earlier(a: Stamp, b: Stamp) -> (r: bool)
    ensures
        r == earlier(a, b),
{
    a.secs < b.secs || (a.secs == b.secs && a.nanos < b.nanos)
}

/// The earliest instant chrono can hold: January 1 of the year -262143, at
/// midnight UTC, in seconds since the Unix epoch.
pub const EARLIEST_SECS: i64 = -8334601228800;

/// The last whole second chrono can hold: December 31 of the year 262142,
/// 23:59:59 UTC, in seconds since the Unix epoch.
pub const LATEST_SECS: i64 = 8210266876799;

/// chrono can write this instant at this offset: the second lies in its
/// range of dates, the nanoseconds stay below one second (or below two,
/// for a leap second, which only the last second of a minute may hold), and
/// the offset is less than a day either way.
pub open spec fn writable(secs: i64, nanos: u32, offset: i32) -> bool {
    &&& EARLIEST_SECS <= secs <= LATEST_SECS
    &&& nanos < 2_000_000_000
    &&& (nanos < 1_000_000_000 || secs % 60 == 59)
    &&& -86400 < offset < 86400
}

/// The text that chrono writes with the pattern `%Y-%m-%d %H:%M:%S` for the
/// instant `secs`.`nanos` after the Unix epoch, seen at `offset` seconds east
/// of UTC; `None` where chrono refuses the instant or the offset.
pub uninterp spec fn local_time_text(secs: i64, nanos: u32, offset: i32) -> Option<Seq<char>>;

/// Writes an instant in local time, through chrono: `DateTime::from_timestamp`
/// makes the instant, `FixedOffset::east_opt` the offset, and
/// `DateTime::from_naive_utc_and_offset(..).format("%Y-%m-%d %H:%M:%S")` the
/// text.  The contract names the text (it depends on the three arguments
/// alone) and states when there is one, as chrono's source decides it:
/// `from_timestamp` takes the day of `secs` through
/// `NaiveDate::from_num_days_from_ce_opt`, whose years run from -262143 to
/// 262142, and the rest through `NaiveTime::from_num_seconds_from_midnight_opt`,
/// which refuses nanoseconds of two seconds or more and a leap second outside
/// the last second of a minute; `east_opt` refuses an offset of a day or
/// more.  Formatting these fixed numeric items does not fail.
#[verifier::external_body]
fn format_local_time(secs: i64, nanos: u32, offset: i32) -> (text: Option<String>)
    ensures
        match text {
            Some(t) => local_time_text(secs, nanos, offset) == Some(t@),
            None => local_time_text(secs, nanos, offset) is None,
        },
        text is Some <==> writable(secs, nanos, offset),
{
    let utc = chrono::DateTime::from_timestamp(secs, nanos)?;
    let zone = chrono::FixedOffset::east_opt(offset)?;
    let local = chrono::DateTime::<chrono::FixedOffset>::from_naive_utc_and_offset(utc.naive_utc(), zone);
    Some(local.format("%Y-%m-%d %H:%M:%S").to_string())
}

/// The local time of an instant, as the client shows it.
pub fn local_time(at: Stamp, offset: i32) -> (text: Option<String>)
    ensures
        match text {
            Some(t) => local_time_text(at.secs, at.nanos, offset) == Some(t@),
            None => local_time_text(at.secs, at.nanos, offset) is None,
        },
        text is Some <==> writable(at.secs, at.nanos, offset),
{
    format_local_time(at.secs, at.nanos, offset)
}

} // verus!
