//! Points in time, and their text in RFC 3339.

use vstd::prelude::*;

verus! {

/// A point in UTC: seconds since 1970 that count no leap seconds, and the
/// nanoseconds since the last of them. The nanoseconds of a leap second are
/// those above 999,999,999, at the end of a minute.
#[derive(Debug, Clone, Copy, PartialEq, Eq, Structural)]
pub struct Timestamp {
    pub secs: i64,
    pub nanos: u32,
}

/// The calendar reaches from the start of the year -262143 to the end of 262142.
pub open spec fn representable(secs: i64, nanos: u32) -> bool {
    &&& -8334601228800 <= secs <= 8210266876799
    &&& nanos < 2000000000
    &&& nanos >= 1000000000 ==> secs % 60 == 59
}

/// From the start of the year 0 to the end of 9999.
pub open spec fn four_digit_year(secs: i64) -> bool {
    -62167219200 <= secs <= 253402300799
}

/// The RFC 3339 text of a point in time, with six decimals and a `Z`.
pub uninterp spec fn rfc3339_micros(secs: i64, nanos: u32) -> Seq<char>;

/// The point in UTC that an RFC 3339 text denotes.
pub uninterp spec fn rfc3339_time(text: Seq<char>) -> Option<(i64, u32)>;

impl Timestamp {
    pub open spec fn wf(self) -> bool {
        representable(self.secs, self.nanos)
    }

    /// The point in time without what is finer than a microsecond.
    pub open spec fn to_micros(self) -> Timestamp {
        Timestamp { secs: self.secs, nanos: (self.nanos - self.nanos % 1000) as u32 }
    }

    /// The stored text of the point in time.
    pub open spec fn text(self) -> Seq<char> {
        rfc3339_micros(self.secs, self.nanos)
    }

    /// The text of this point in time is read back to the microsecond.
    pub open spec fn reads_back(self) -> bool {
        parsed_time(self.text()) == Some(self.to_micros())
    }

    /// The point in time with these seconds and nanoseconds, where there is one.
    pub fn new(secs: i64, nanos: u32) -> (r: Option<Timestamp>)
        ensures
            r == if representable(secs, nanos) {
                Some(Timestamp { secs, nanos })
            } else {
                None
            },
    {
        if secs < -8334601228800 || secs > 8210266876799 || nanos >= 2000000000 {
            return None;
        }
        if nanos >= 1000000000 {
            let in_minute: i64 = if secs >= 0 {
                secs % 60
            } else {
                59 - (-(secs + 1)) % 60
            };
            if in_minute != 59 {
                return None;
            }
        }
        Some(Timestamp { secs, nanos })
    }
}

/// The point in time that a text denotes.
pub open spec fn parsed_time(text: Seq<char>) -> Option<Timestamp> {
    match rfc3339_time(text) {
        Some((secs, nanos)) => Some(Timestamp { secs, nanos }),
        None => None,
    }
}

/// Calls `chrono::DateTime::<Utc>::from_timestamp` and `to_rfc3339_opts` with six
/// decimals and `Z`. The text is named by `rfc3339_micros`. For the years that
/// RFC 3339 can write, the text is one that chrono reads back, to the
/// microsecond.
#[verifier::external_body]
fn write_rfc3339(secs: i64, nanos: u32) -> (r: String)
    requires
        representable(secs, nanos),
    ensures
        r@ == rfc3339_micros(secs, nanos),
        four_digit_year(secs) ==> rfc3339_time(r@) == Some((secs, (nanos - nanos % 1000) as u32)),
{
    let at = chrono::DateTime::<chrono::Utc>::from_timestamp(secs, nanos).unwrap();
    at.to_rfc3339_opts(chrono::SecondsFormat::Micros, true)
}

/// Calls `chrono::DateTime::parse_from_rfc3339`. The result is named by
/// `rfc3339_time`: the seconds and nanoseconds in UTC, or nothing where chrono
/// refuses the text. What it accepts lies within the calendar.
#[verifier::external_body]
fn read_rfc3339(text: &str) -> (r: Option<(i64, u32)>)
    ensures
        r == rfc3339_time(text@),
        match r {
            Some((secs, nanos)) => representable(secs, nanos),
            None => true,
        },
{
    let parsed = chrono::DateTime::parse_from_rfc3339(text).ok();
    parsed.map(|at| (at.timestamp(), at.timestamp_subsec_nanos()))
}

/// The stored text of a point in time.
pub fn timestamp(value: Timestamp) -> (r: String)
    requires
        value.wf(),
    ensures
        r@ == value.text(),
        four_digit_year(value.secs) ==> value.reads_back(),
{
    write_rfc3339(value.secs, value.nanos)
}

/// The point in time that a text denotes, if it denotes one.
pub fn parse_timestamp(text: &str) -> (r: Option<Timestamp>)
    ensures
        r == parsed_time(text@),
        r is Some ==> r->0.wf(),
{
    match read_rfc3339(text) {
        Some((secs, nanos)) => Some(Timestamp { secs, nanos }),
        None => None,
    }
}

} // verus!
