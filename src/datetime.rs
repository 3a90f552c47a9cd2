//! Timestamps as stored by the database, read through chrono.
use vstd::prelude::*;

verus! {

/// What chrono reads from a `YYYY-MM-DD HH:MM:SS` text, as seconds since the
/// Unix epoch in UTC; `None` when the text does not have that form.
pub uninterp spec fn sqlite_timestamp(s: Seq<char>) -> Option<i64>;

/// Relies on chrono's `NaiveDateTime::parse_from_str` with the format
/// `%Y-%m-%d %H:%M:%S` and on `NaiveDateTime::and_utc` and
/// `DateTime::timestamp`: the parsed time, read as UTC, in seconds since the
/// Unix epoch, or `None` when the text does not parse.
#[verifier::external_body]
fn parse_timestamp(s: &str) -> (r: Option<i64>)
    ensures
        r == sqlite_timestamp(s@),
{
    match chrono::NaiveDateTime::parse_from_str(s, "%Y-%m-%d %H:%M:%S") {
        Ok(naive) => Some(naive.and_utc().timestamp()),
        Err(_) => None,
    }
}

/// Relies on chrono's `From<SystemTime>` for `DateTime<Utc>` and on
/// `DateTime::timestamp`: the current time in whole seconds since the Unix
/// epoch, also for a clock set before it. Nothing is promised of its value.
#[verifier::external_body]
fn now_timestamp() -> (r: i64) {
    chrono::DateTime::<chrono::Utc>::from(std::time::SystemTime::now()).timestamp()
}

/// A point in time, in seconds since the Unix epoch (UTC).
#[derive(Clone, Copy, Debug, PartialEq, Eq)]
pub struct SqliteDateTime {
    pub timestamp: i64,
}

impl SqliteDateTime {
    /// The parsed time when there is one, else `now`.
    pub fn from_parsed(parsed: Option<i64>, now: i64) -> (r: SqliteDateTime)
        ensures
            r.timestamp == match parsed {
                Some(t) => t,
                None => now,
            },
    {
        match parsed {
            Some(t) => SqliteDateTime { timestamp: t },
            None => SqliteDateTime { timestamp: now },
        }
    }

    /// Reads a database timestamp; a text that does not parse gives the
    /// current time.
    pub fn from(s: String) -> (r: SqliteDateTime)
        ensures
            sqlite_timestamp(s@) matches Some(t) ==> r.timestamp == t,
    {
        let parsed = parse_timestamp(s.as_str());
        let fallback = match parsed {
            Some(t) => t,
            None => now_timestamp(),
        };
        SqliteDateTime::from_parsed(parsed, fallback)
    }
}

} // verus!
