//! Points in time.
use vstd::prelude::*;

verus! {

/// A point in time: seconds since the start of 1970 in UTC, and nanoseconds. A count of
/// nanoseconds of a whole second or more is that of a leap second.
pub type Instant = (i64, u32);

/// The first second that can be written down: the start of the year -262143.
pub const FIRST_SECOND: i64 = -8334601228800;

/// The last second that can be written down: the end of the year 262142.
pub const LAST_SECOND: i64 = 8210266876799;

/// The nanoseconds of a second.
pub const NANOS_PER_SECOND: u32 = 1_000_000_000;

/// The first second of the year 0.
pub const YEAR_ZERO: i64 = -62167219200;

/// The first second of the year 10000.
pub const YEAR_TEN_THOUSAND: i64 = 253402300800;

/// The seconds of a day.
pub const SECONDS_PER_DAY: i64 = 86400;

/// The instant can be written down. Only the last second of a minute can be a leap second.
pub open spec fn valid_instant(t: Instant) -> bool {
    &&& FIRST_SECOND <= t.0 <= LAST_SECOND
    &&& t.1 < NANOS_PER_SECOND || (t.1 < 2 * NANOS_PER_SECOND && t.0 as int % 60 == 59)
}

/// The instant can be what the clock shows: it is not before 1970, and within no leap second.
pub open spec fn could_be_now(t: Instant) -> bool {
    valid_instant(t) && 0 <= t.0 && t.1 < NANOS_PER_SECOND
}

/// The instant lies in one of the years that RFC 3339 can write: 0 to 9999.
pub open spec fn in_rfc3339_range(t: Instant) -> bool {
    YEAR_ZERO <= t.0 < YEAR_TEN_THOUSAND
}

/// `a` is not before `b`.
pub open spec fn not_before(a: Instant, b: Instant) -> bool {
    a.0 > b.0 || (a.0 == b.0 && a.1 >= b.1)
}

/// The instant a number of days earlier. A leap second counts as the second after it.
pub open spec fn days_before(t: Instant, days: int) -> (int, int) {
    if t.1 < NANOS_PER_SECOND {
        (t.0 - days * SECONDS_PER_DAY, t.1 as int)
    } else {
        (t.0 - days * SECONDS_PER_DAY + 1, t.1 - NANOS_PER_SECOND)
    }
}

/// What `chrono`'s `DateTime<Utc>::to_rfc3339` writes for an instant.
pub uninterp spec fn rfc3339_text(secs: i64, nanos: u32) -> Seq<char>;

/// The instant that `chrono`'s `DateTime::parse_from_rfc3339` reads in a text.
pub uninterp spec fn rfc3339_instant(text: Seq<char>) -> Option<(i64, u32)>;

/// What `chrono`'s `DateTime<Utc>::format` writes for an instant by a pattern.
pub uninterp spec fn formatted_instant(secs: i64, nanos: u32, pattern: Seq<char>) -> Seq<char>;

/// The pattern of a date with hour and minute.
pub open spec fn minute_pattern() -> Seq<char> {
    "%Y-%m-%d %H:%M UTC"@
}

/// Writes an instant with `DateTime<Utc>::to_rfc3339` of `chrono`. Within the years 0 to 9999,
/// `parse_from_rfc3339` reads the same instant back.
#[verifier::external_body]
fn write_rfc3339(secs: i64, nanos: u32) -> (r: String)
    requires
        valid_instant((secs, nanos)),
    ensures
        r@ == rfc3339_text(secs, nanos),
        in_rfc3339_range((secs, nanos)) ==> rfc3339_instant(r@) == Some((secs, nanos)),
{
    chrono::DateTime::from_timestamp(secs, nanos).expect("a valid instant").to_rfc3339()
}

/// Reads an instant with `DateTime::parse_from_rfc3339` of `chrono`, in UTC. What it reads can be
/// written down.
#[verifier::external_body]
fn read_rfc3339(text: &str) -> (r: Option<(i64, u32)>)
    ensures
        r == rfc3339_instant(text@),
        r matches Some(t) ==> valid_instant(t),
{
    match chrono::DateTime::parse_from_rfc3339(text) {
        Ok(t) => Some((t.timestamp(), t.timestamp_subsec_nanos())),
        Err(_) => None,
    }
}

/// Writes an instant with `DateTime<Utc>::format` of `chrono`, by a pattern of date, hour and
/// minute.
#[verifier::external_body]
fn write_by_pattern(secs: i64, nanos: u32, pattern: &str) -> (r: String)
    requires
        valid_instant((secs, nanos)),
        pattern@ == minute_pattern(),
    ensures
        r@ == formatted_instant(secs, nanos, pattern@),
{
    chrono::DateTime::from_timestamp(secs, nanos).expect("a valid instant").format(pattern).to_string()
}

/// Reads the system clock with `Utc::now` of `chrono`: an instant from 1970 on, never within a
/// leap second.
#[verifier::external_body]
fn read_clock() -> (r: (i64, u32))
    ensures
        0 <= r.0 <= LAST_SECOND,
        r.1 < NANOS_PER_SECOND,
{
    let now = chrono::Utc::now();
    (now.timestamp(), now.timestamp_subsec_nanos())
}

/// A point in time in UTC.
#[derive(Clone, Copy, Debug, PartialEq, Eq, Structural)]
pub struct Timestamp {
    secs: i64,
    nanos: u32,
}

impl View for Timestamp {
    type V = Instant;

    closed spec fn view(&self) -> Instant {
        (self.secs, self.nanos)
    }
}

impl Timestamp {
    #[verifier::type_invariant]
    spec fn is_valid(&self) -> bool {
        valid_instant((self.secs, self.nanos))
    }

    /// Two timestamps of one instant are the same.
    pub proof fn view_is_faithful(a: Timestamp, b: Timestamp)
        requires
            a@ == b@,
        ensures
            a == b,
    {
    }

    /// The timestamp of an instant, if it can be written down.
    pub fn from_parts(secs: i64, nanos: u32) -> (r: Option<Timestamp>)
        ensures
            match r {
                Some(t) => t@ == (secs, nanos) && valid_instant(t@),
                None => !valid_instant((secs, nanos)),
            },
    {
        if secs < FIRST_SECOND || secs > LAST_SECOND || nanos >= 2_000_000_000 {
            return None;
        }
        // The lowest second is a whole number of minutes, so counting from it keeps the minute.
        if nanos >= 1_000_000_000 && (secs - FIRST_SECOND) % 60 != 59 {
            return None;
        }
        Some(Timestamp { secs, nanos })
    }

    /// Seconds since the start of 1970.
    pub fn secs(&self) -> (r: i64)
        ensures
            r == self@.0,
            valid_instant(self@),
    {
        proof {
            use_type_invariant(self);
        }
        self.secs
    }

    /// Nanoseconds within the second.
    pub fn nanos(&self) -> (r: u32)
        ensures
            r == self@.1,
            valid_instant(self@),
    {
        proof {
            use_type_invariant(self);
        }
        self.nanos
    }

    /// The present time. Nothing else is known of it but that it is not before 1970.
    pub fn now() -> (r: Timestamp)
        ensures
            could_be_now(r@),
    {
        let (secs, nanos) = read_clock();
        Timestamp { secs, nanos }
    }

    /// Writes the timestamp in the form of RFC 3339.
    pub fn to_rfc3339(&self) -> (r: String)
        ensures
            r@ == rfc3339_text(self@.0, self@.1),
            in_rfc3339_range(self@) ==> rfc3339_instant(r@) == Some(self@),
    {
        proof {
            use_type_invariant(self);
        }
        write_rfc3339(self.secs, self.nanos)
    }

    /// Reads a timestamp in the form of RFC 3339.
    pub fn parse_rfc3339(text: &str) -> (r: Option<Timestamp>)
        ensures
            match r {
                Some(t) => rfc3339_instant(text@) == Some(t@),
                None => rfc3339_instant(text@) is None,
            },
    {
        match read_rfc3339(text) {
            Some((secs, nanos)) => Some(Timestamp { secs, nanos }),
            None => None,
        }
    }

    /// Writes date, hour and minute.
    pub fn to_minute_text(&self) -> (r: String)
        ensures
            r@ == formatted_instant(self@.0, self@.1, minute_pattern()),
    {
        proof {
            use_type_invariant(self);
        }
        write_by_pattern(self.secs, self.nanos, "%Y-%m-%d %H:%M UTC")
    }

    /// Whether the timestamp is not before another.
    pub fn is_not_before(&self, other: &Timestamp) -> (r: bool)
        ensures
            r == not_before(self@, other@),
    {
        self.secs > other.secs || (self.secs == other.secs && self.nanos >= other.nanos)
    }

    /// The timestamp thirty days earlier, if it can be written down.
    pub fn thirty_days_before(&self) -> (r: Option<Timestamp>)
        ensures
            match r {
                Some(t) => (t@.0 as int, t@.1 as int) == days_before(self@, 30),
                None => days_before(self@, 30).0 < FIRST_SECOND,
            },
    {
        proof {
            use_type_invariant(self);
        }
        let (secs, nanos) = if self.nanos < 1_000_000_000 {
            (self.secs - 30 * SECONDS_PER_DAY, self.nanos)
        } else {
            (self.secs - 30 * SECONDS_PER_DAY + 1, self.nanos - 1_000_000_000)
        };
        if secs < FIRST_SECOND {
            None
        } else {
            Some(Timestamp { secs, nanos })
        }
    }
}

} // verus!
