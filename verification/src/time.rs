//! Points in time, as they stand in the database.
use vstd::prelude::*;
use vstd::string::*;

verus! {

/// A point in time: seconds since the epoch, and nanoseconds after that second.
#[derive(Clone, Copy, Debug, PartialEq, Eq, Structural)]
pub struct Timestamp {
    pub secs: i64,
    pub nanos: u32,
}

impl Timestamp {
    /// Whether the point in time lies in a year from -262143 to 262142, with less than a second of
    /// nanoseconds, or less than two in a leap second.
    pub open spec fn valid(self) -> bool {
        &&& -8334601228800 <= self.secs <= 8210266876799
        &&& self.nanos < 1_000_000_000 || (self.nanos < 2_000_000_000 && self.secs as int % 60
            == 59)
    }

    /// Whether the point in time is a valid one.
    pub fn is_valid(&self) -> (r: bool)
        ensures
            r == self.valid(),
    {
        let minute_ends = if self.secs >= 0 {
            self.secs % 60 == 59
        } else {
            let after: i64 = self.secs + 1;
            (0 - after) % 60 == 0
        };
        -8334601228800 <= self.secs && self.secs <= 8210266876799 && (self.nanos < 1_000_000_000 || (
        self.nanos < 2_000_000_000 && minute_ends))
    }
}

/// The point in time that `chrono::DateTime::parse_from_rfc3339` reads out of a text.
pub uninterp spec fn rfc3339_time(s: Seq<char>) -> Option<Timestamp>;

/// `chrono::DateTime::parse_from_rfc3339` reads a point in time out of a text of RFC 3339, or
/// refuses the text; which of both, and which point in time, depends on the text alone.
#[verifier::external_body]
pub(crate) fn parse_rfc3339(s: &str) -> (r: Option<Timestamp>)
    ensures
        r == rfc3339_time(s@),
{
    match chrono::DateTime::parse_from_rfc3339(s) {
        Ok(t) => Some(Timestamp { secs: t.timestamp(), nanos: t.timestamp_subsec_nanos() }),
        Err(_) => None,
    }
}

/// The text of RFC 3339 that `chrono::DateTime::to_rfc3339` writes for a point in time.
pub uninterp spec fn rfc3339_text(t: Timestamp) -> Seq<char>;

/// `chrono::DateTime::to_rfc3339` writes a point in time, taken as universal time, as text of
/// RFC 3339, which depends on the point in time alone. `DateTime::from_timestamp` takes any point
/// in time that is valid.
#[verifier::external_body]
pub(crate) fn to_rfc3339(t: Timestamp) -> (r: String)
    requires
        t.valid(),
    ensures
        r@ == rfc3339_text(t),
{
    let time = chrono::DateTime::from_timestamp(t.secs, t.nanos);
    time.map(|d| d.to_rfc3339()).unwrap_or_default()
}

} // verus!
