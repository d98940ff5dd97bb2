use std::fmt::Write;
use vstd::prelude::*;

verus! {

/// An instant in UTC: whole seconds since the Unix epoch and the nanoseconds
/// past them.
#[derive(Clone, Copy, Debug, PartialEq, Eq, Structural)]
pub struct UtcInstant {
    pub secs: i64,
    pub nanos: u32,
}

/// The instant `secs`/`nanos` written with a strftime-style `pattern`, or
/// `None` where the instant is out of range or the pattern does not parse.
pub uninterp spec fn formatted_instant(secs: int, nanos: int, pattern: Seq<char>) -> Option<Seq<char>>;

/// Relies on chrono's `DateTime::<Utc>::from_timestamp` and `DateTime::format`:
/// the text depends on the instant and the pattern alone; an out-of-range
/// instant or a pattern that does not parse gives no text.
#[verifier::external_body]
pub(crate) fn format_instant(secs: i64, nanos: u32, pattern: &str) -> (r: Option<String>)
    ensures
        match r {
            Some(t) => formatted_instant(secs as int, nanos as int, pattern@) == Some(t@),
            None => formatted_instant(secs as int, nanos as int, pattern@) is None,
        },
{
    let mut out = String::new();
    match chrono::DateTime::from_timestamp(secs, nanos) {
        Some(date) => match write!(out, "{}", date.format(pattern)) {
            Ok(()) => Some(out),
            Err(_) => None,
        },
        None => None,
    }
}

/// Relies on std's `SystemTime::now` and chrono's `From<SystemTime>` for
/// `DateTime<Utc>`, which also takes a clock before 1970: the current
/// instant, split into seconds and nanoseconds.
#[verifier::external_body]
pub(crate) fn now() -> (r: UtcInstant) {
    let now = chrono::DateTime::<chrono::Utc>::from(std::time::SystemTime::now());
    UtcInstant { secs: now.timestamp(), nanos: now.timestamp_subsec_nanos() }
}

} // verus!
