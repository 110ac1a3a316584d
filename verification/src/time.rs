//! Clock readings, through `std::time`, and timestamp rendering, through
//! `chrono`.

use std::time::SystemTime;

use vstd::prelude::*;

use crate::protocol::types::Timestamp;

verus! {

/// The `chrono` format of timestamps in human lines: ISO 8601 in UTC with
/// milliseconds.
pub open spec fn iso_millis_pattern() -> Seq<char> {
    "%Y-%m-%dT%H:%M:%S%.3fZ"@
}

/// Seconds `chrono` can place in a calendar date with room to spare: its
/// dates span the years -262143 to 262142, over 8.2e12 seconds either side of
/// the epoch.
pub open spec fn renderable(secs: i64, nanos: u32) -> bool {
    -8_000_000_000_000 <= secs <= 8_000_000_000_000 && nanos < 1_000_000_000
}

/// What `chrono` renders for the UTC instant `secs` seconds and `nanos`
/// nanoseconds after the Unix epoch under the format `pattern`; `None` when
/// `DateTime::from_timestamp` rejects the instant.
pub uninterp spec fn utc_text(secs: i64, nanos: u32, pattern: Seq<char>) -> Option<Seq<char>>;

/// Calls `chrono::DateTime::<Utc>::from_timestamp(secs, nanos)` and renders
/// the result with `DateTime::format(pattern)`.  The text is only named: it is
/// a function of the three arguments alone; `None` stands for the instants
/// that `from_timestamp` rejects.  `from_timestamp` accepts every instant
/// whose day lies within chrono's date range and whose nanoseconds are below
/// one billion, so every `renderable` instant renders.  Only the library's own
/// pattern is passed: `to_string` panics on a pattern that `chrono` cannot
/// render.
#[verifier::external_body]
pub(crate) fn format_utc(secs: i64, nanos: u32, pattern: &str) -> (r: Option<String>)
    requires
        pattern@ == iso_millis_pattern(),
    ensures
        renderable(secs, nanos) ==> r is Some,
        match r {
            Some(t) => utc_text(secs, nanos, pattern@) == Some(t@),
            None => utc_text(secs, nanos, pattern@) is None,
        },
{
    chrono::DateTime::from_timestamp(secs, nanos).map(|t| t.format(pattern).to_string())
}

#[verifier::external_type_specification]
#[verifier::external_body]
pub struct ExSystemTime(std::time::SystemTime);

/// Reads the system clock (`SystemTime::now`); nothing is promised of the
/// reading.
#[verifier::external_body]
fn system_now() -> (r: SystemTime) {
    SystemTime::now()
}

/// `SystemTime::duration_since(UNIX_EPOCH)` as whole seconds and the
/// nanoseconds past them: `Ok` for a time at or after the epoch, `Err` with
/// how far before the epoch the time lies.  A `Duration`'s sub-second
/// nanoseconds are always below one billion; never panics.
#[verifier::external_body]
fn offset_from_epoch(t: &SystemTime) -> (r: Result<(u64, u32), (u64, u32)>)
    ensures
        match r {
            Ok((_, n)) => n < 1_000_000_000,
            Err((_, n)) => n < 1_000_000_000,
        },
{
    match t.duration_since(std::time::UNIX_EPOCH) {
        Ok(d) => Ok((d.as_secs(), d.subsec_nanos())),
        Err(e) => Err((e.duration().as_secs(), e.duration().subsec_nanos())),
    }
}

/// Signed nanoseconds from the epoch of an offset as read from the clock.
pub open spec fn offset_nanos(off: Result<(u64, u32), (u64, u32)>) -> int {
    match off {
        Ok((s, n)) => s * 1_000_000_000 + n,
        Err((s, n)) => -(s * 1_000_000_000 + n),
    }
}

/// Signed nanoseconds from the epoch of a timestamp.
pub open spec fn timestamp_nanos(t: Timestamp) -> int {
    t.secs * 1_000_000_000 + t.nanos
}

/// The timestamp for an offset from the epoch: the same instant, with
/// nanoseconds below one billion; offsets beyond `i64` seconds are clamped to
/// the last representable second.
pub open spec fn timestamp_of(off: Result<(u64, u32), (u64, u32)>) -> Timestamp {
    match off {
        Ok((s, n)) => if s <= i64::MAX {
            Timestamp { secs: s as i64, nanos: n }
        } else {
            Timestamp { secs: i64::MAX, nanos: n }
        },
        Err((s, n)) => if n == 0 {
            if s <= i64::MAX { Timestamp { secs: -(s as int) as i64, nanos: 0 } } else { Timestamp { secs: i64::MIN, nanos: 0 } }
        } else {
            if s < i64::MAX {
                Timestamp { secs: (-(s as int) - 1) as i64, nanos: (1_000_000_000 - n) as u32 }
            } else {
                Timestamp { secs: i64::MIN, nanos: 0 }
            }
        },
    }
}

/// The timestamp for an offset from the epoch read off the clock.
pub fn timestamp_from_offset(off: Result<(u64, u32), (u64, u32)>) -> (r: Timestamp)
    requires
        match off {
            Ok((_, n)) => n < 1_000_000_000,
            Err((_, n)) => n < 1_000_000_000,
        },
    ensures
        r == timestamp_of(off),
        r.nanos < 1_000_000_000,
        (match off {
            Ok((s, _)) => s <= i64::MAX,
            Err((s, _)) => s < i64::MAX,
        }) ==> timestamp_nanos(r) == offset_nanos(off),
{
    match off {
        Ok((s, n)) => {
            if s <= 9_223_372_036_854_775_807u64 {
                Timestamp { secs: s as i64, nanos: n }
            } else {
                Timestamp { secs: i64::MAX, nanos: n }
            }
        },
        Err((s, n)) => {
            if n == 0 {
                if s <= 9_223_372_036_854_775_807u64 {
                    let secs: i64 = s as i64;
                    Timestamp { secs: -secs, nanos: 0 }
                } else {
                    Timestamp { secs: i64::MIN, nanos: 0 }
                }
            } else if s < 9_223_372_036_854_775_807u64 {
                let secs: i64 = s as i64;
                Timestamp { secs: -secs - 1, nanos: 1_000_000_000 - n }
            } else {
                Timestamp { secs: i64::MIN, nanos: 0 }
            }
        },
    }
}

/// Reads the system clock: the current instant as seconds since the Unix
/// epoch (negative before it) and nanoseconds past that second.  Which
/// instant is read is not promised; the nanoseconds are below one billion.
pub fn now() -> (r: Timestamp)
    ensures
        r.nanos < 1_000_000_000,
{
    let t = system_now();
    timestamp_from_offset(offset_from_epoch(&t))
}

} // verus!
