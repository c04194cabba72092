//! Instants in UTC, as `chrono` keeps them, and the few things the
//! library asks `chrono` about them.
use chrono::{Datelike, TimeZone};
use vstd::prelude::*;

verus! {

/// An instant that `chrono` can represent: seconds since the Unix epoch and
/// the nanoseconds within that second.
#[derive(Clone, Copy, Debug)]
pub struct UtcTime {
    secs: i64,
    nanos: u32,
}

/// The (year, month, day) in UTC that `chrono` gives the instant `secs`
/// seconds and `nanos` nanoseconds after the Unix epoch, or `None` where
/// `chrono` has no such instant.
pub uninterp spec fn chrono_utc_ymd(secs: i64, nanos: u32) -> Option<(i32, u32, u32)>;

/// What `str::parse::<chrono::DateTime<chrono::Utc>>` makes of `s`, as
/// (seconds, nanoseconds) since the Unix epoch.
pub uninterp spec fn chrono_parse_utc(s: Seq<char>) -> Option<(i64, u32)>;

impl UtcTime {
    #[verifier::type_invariant]
    spec fn representable(self) -> bool {
        chrono_utc_ymd(self.secs, self.nanos) is Some
    }

    pub closed spec fn sp_secs(self) -> i64 {
        self.secs
    }

    pub closed spec fn sp_nanos(self) -> u32 {
        self.nanos
    }

    /// Seconds since the Unix epoch.
    pub fn secs(&self) -> (r: i64)
        ensures
            r == self.sp_secs(),
    {
        self.secs
    }

    /// Nanoseconds within the second.
    pub fn nanos(&self) -> (r: u32)
        ensures
            r == self.sp_nanos(),
    {
        self.nanos
    }

    /// The instant `secs` seconds and `nanos` nanoseconds after the Unix
    /// epoch, if `chrono` can represent it.
    pub fn from_timestamp(secs: i64, nanos: u32) -> (r: Option<UtcTime>)
        ensures
            r is Some <==> chrono_utc_ymd(secs, nanos) is Some,
            r matches Some(t) ==> t.sp_secs() == secs && t.sp_nanos() == nanos,
    {
        match utc_ymd(secs, nanos) {
            Some(_) => Some(UtcTime { secs, nanos }),
            None => None,
        }
    }

    /// The instant parsed from `s` as `chrono` parses a `DateTime<Utc>`.
    pub fn parse(s: &str) -> (r: Option<UtcTime>)
        ensures
            match r {
                Some(t) => chrono_parse_utc(s@) == Some((t.sp_secs(), t.sp_nanos())),
                None => chrono_parse_utc(s@) is None,
            },
    {
        match parse_utc(s) {
            Some((secs, nanos)) => Some(UtcTime { secs, nanos }),
            None => None,
        }
    }

    /// The present instant.
    pub fn now() -> (r: UtcTime) {
        let (secs, nanos) = utc_now();
        UtcTime { secs, nanos }
    }

    /// The instant's calendar day in UTC: (year, month, day).
    pub fn ymd(&self) -> (r: (i32, u32, u32))
        ensures
            chrono_utc_ymd(self.sp_secs(), self.sp_nanos()) == Some(r),
    {
        proof {
            use_type_invariant(self);
        }
        match utc_ymd(self.secs, self.nanos) {
            Some(d) => d,
            None => (0, 0, 0),
        }
    }
}

/// Calls `chrono::Utc::now`. The result depends on the clock; the contract
/// says only that it is an instant that `chrono` represents (its own
/// timestamp, read back).
#[verifier::external_body]
fn utc_now() -> (r: (i64, u32))
    ensures
        chrono_utc_ymd(r.0, r.1) is Some,
{
    let d = chrono::Utc::now();
    (d.timestamp(), d.timestamp_subsec_nanos())
}

/// Calls `str::parse::<chrono::DateTime<chrono::Utc>>`, whose result is
/// named `chrono_parse_utc`; what it parses is an instant that `chrono`
/// represents.
#[verifier::external_body]
fn parse_utc(s: &str) -> (r: Option<(i64, u32)>)
    ensures
        r == chrono_parse_utc(s@),
        r matches Some(t) ==> chrono_utc_ymd(t.0, t.1) is Some,
{
    match s.parse::<chrono::DateTime<chrono::Utc>>() {
        Ok(d) => Some((d.timestamp(), d.timestamp_subsec_nanos())),
        Err(_) => None,
    }
}

/// Calls `chrono::Utc.timestamp_opt(secs, nanos)` and reads the year,
/// month and day of the instant it gives, named `chrono_utc_ymd`.
#[verifier::external_body]
fn utc_ymd(secs: i64, nanos: u32) -> (r: Option<(i32, u32, u32)>)
    ensures
        r == chrono_utc_ymd(secs, nanos),
{
    match chrono::Utc.timestamp_opt(secs, nanos).single() {
        Some(d) => Some((d.year(), d.month(), d.day())),
        None => None,
    }
}

} // verus!
