//! Points in time as the relay sees them: whole seconds since the Unix epoch
//! plus a sub-second part, ordered lexicographically.

use vstd::prelude::*;
use vstd::string::StringExecFns;

verus! {

/// A UTC instant, carried as plain integers.
#[derive(Clone, Copy, Debug, PartialEq, Eq, Structural)]
pub struct Timestamp {
    /// Non-leap seconds since 1970-01-01T00:00:00Z.
    pub secs: i64,
    /// Nanoseconds since the last second boundary.
    pub nanos: u32,
}

/// The text that chrono prints for the instant `(secs, nanos)` under the
/// pattern `%Y-%m-%d %H:%M:%S UTC`, or `None` where chrono has no `DateTime`
/// for that instant.
pub uninterp spec fn utc_text(secs: i64, nanos: u32) -> Option<Seq<char>>;

impl Timestamp {
    /// `self` lies strictly later than `other`.
    pub open spec fn is_after(self, other: Timestamp) -> bool {
        self.secs > other.secs || (self.secs == other.secs && self.nanos > other.nanos)
    }

    /// `self` is not earlier than `other`.
    pub open spec fn not_before(self, other: Timestamp) -> bool {
        !other.is_after(self)
    }

    /// The instant `secs` seconds after `self`, held at the last
    /// representable second where the sum would leave `i64`.
    pub open spec fn spec_plus_seconds(self, secs: u64) -> Timestamp {
        Timestamp {
            secs: if self.secs + secs > i64::MAX {
                i64::MAX
            } else {
                (self.secs + secs) as i64
            },
            nanos: self.nanos,
        }
    }

    /// Nanoseconds since the epoch; zero for instants before it.
    pub open spec fn spec_unix_nanos(self) -> nat {
        if self.secs < 0 {
            0
        } else {
            (self.secs * 1_000_000_000 + self.nanos) as nat
        }
    }

    pub fn new(secs: i64, nanos: u32) -> (t: Timestamp)
        ensures
            t == (Timestamp { secs, nanos }),
    {
        Timestamp { secs, nanos }
    }

    pub fn after(&self, other: &Timestamp) -> (r: bool)
        ensures
            r == self.is_after(*other),
    {
        self.secs > other.secs || (self.secs == other.secs && self.nanos > other.nanos)
    }

    pub fn plus_seconds(&self, secs: u64) -> (t: Timestamp)
        ensures
            t == self.spec_plus_seconds(secs),
    {
        let total: i128 = self.secs as i128 + secs as i128;
        if total > i64::MAX as i128 {
            Timestamp { secs: i64::MAX, nanos: self.nanos }
        } else {
            Timestamp { secs: total as i64, nanos: self.nanos }
        }
    }

    pub fn unix_nanos(&self) -> (n: u128)
        ensures
            n == self.spec_unix_nanos(),
    {
        if self.secs < 0 {
            0
        } else {
            (self.secs as u128) * 1_000_000_000 + self.nanos as u128
        }
    }

    /// Reads the system clock through `chrono::Utc::now`. Nothing is promised
    /// of the reading beyond chrono's own bound on the sub-second part: two
    /// readings need not even be ordered. chrono gives up on a system clock
    /// that is set before 1970.
    #[verifier::external_body]
    pub(crate) fn now() -> (t: Timestamp)
        ensures
            t.nanos < 1_000_000_000,
    {
        let t = chrono::Utc::now();
        Timestamp { secs: t.timestamp(), nanos: t.timestamp_subsec_nanos() }
    }

    /// Whole seconds since the epoch; zero for instants before it.
    pub open spec fn spec_unix_seconds(self) -> u64 {
        if self.secs < 0 {
            0
        } else {
            self.secs as u64
        }
    }

    pub fn unix_seconds(&self) -> (n: u64)
        ensures
            n == self.spec_unix_seconds(),
    {
        if self.secs < 0 {
            0
        } else {
            self.secs as u64
        }
    }

    /// Renders the instant with `chrono::DateTime::from_timestamp` followed by
    /// `format("%Y-%m-%d %H:%M:%S UTC")`. The text is taken on trust as
    /// [`utc_text`]; `None` comes back exactly where chrono refuses the
    /// instant.
    #[verifier::external_body]
    fn chrono_text(secs: i64, nanos: u32) -> (r: Option<String>)
        ensures
            r.deep_view() == utc_text(secs, nanos),
    {
        match chrono::DateTime::from_timestamp(secs, nanos) {
            Some(t) => Some(t.format("%Y-%m-%d %H:%M:%S UTC").to_string()),
            None => None,
        }
    }

    /// The rendering given, or the words that stand for an instant the
    /// calendar cannot hold.
    pub open spec fn text_or_default(rendered: Option<Seq<char>>) -> Seq<char> {
        match rendered {
            Some(s) => s,
            None => "the end of time"@,
        }
    }

    /// A calendar rendering of the instant, `YYYY-MM-DD HH:MM:SS UTC`; instants
    /// outside the calendar's range read "the end of time".
    pub fn to_text(&self) -> (s: String)
        ensures
            s@ == Self::text_or_default(utc_text(self.secs, self.nanos)),
    {
        match Self::chrono_text(self.secs, self.nanos) {
            Some(s) => s,
            None => String::from_str("the end of time"),
        }
    }
}

} // verus!
