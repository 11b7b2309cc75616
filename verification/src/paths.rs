//! File layout of the data directory: frame images and archived videos are
//! filed by their UTC capture time.

use crate::config::CaptureImageFormat;
use crate::text::{push_padded, push_signed, push_signed_padded, push_str, signed_decimal,
    signed_padded, string_from_chars, zero_padded, decimal};
use chrono::{Datelike, Timelike};
use vstd::prelude::*;

verus! {

/// Name of the data directory under the user's home directory.
pub const DATA_DIR_NAME: &'static str = ".screenrecall";

/// File name of the SQLite database in the data directory.
pub const SQLITE_DB_FILE: &'static str = "screenrecall.db";

/// Calendar and clock fields of an instant in UTC.
#[derive(Clone, Copy, Debug, PartialEq, Eq)]
pub struct UtcParts {
    pub year: i32,
    pub month: u32,
    pub day: u32,
    pub hour: u32,
    pub minute: u32,
    pub second: u32,
    pub millis: u32,
}

/// The proleptic Gregorian (year, month, day) of the day `days` after
/// 1970-01-01 (negative before it), computed through 400-year eras that
/// start on March 1.
pub open spec fn civil_from_days(days: int) -> (int, int, int) {
    let z = days + 719468;
    let era = z / 146097;
    let doe = z - era * 146097;
    let yoe = (doe - doe / 1460 + doe / 36524 - doe / 146096) / 365;
    let doy = doe - (365 * yoe + yoe / 4 - yoe / 100);
    let mp = (5 * doy + 2) / 153;
    let day = doy - (153 * mp + 2) / 5 + 1;
    let month = if mp < 10 {
        mp + 3
    } else {
        mp - 9
    };
    let year = yoe + era * 400 + if month <= 2 {
        1int
    } else {
        0int
    };
    (year, month, day)
}

/// The UTC calendar and clock fields of the instant `ms` milliseconds after
/// the Unix epoch (days, seconds and milliseconds by floor division).
pub open spec fn utc_parts_spec(ms: i64) -> UtcParts {
    let secs = ms / 1000;
    let days = secs / 86400;
    let sod = secs % 86400;
    let date = civil_from_days(days);
    UtcParts {
        year: date.0 as i32,
        month: date.1 as u32,
        day: date.2 as u32,
        hour: (sod / 3600) as u32,
        minute: (sod % 3600 / 60) as u32,
        second: (sod % 60) as u32,
        millis: (ms % 1000) as u32,
    }
}

/// chrono's `DateTime::<Utc>::from_timestamp_millis`, then its calendar and
/// clock fields. chrono splits the instant by floor division into days,
/// seconds of the day and milliseconds, and dates the day in the proleptic
/// Gregorian calendar; the contract states those fields, and that instants
/// from the epoch to the end of year 9999 are in range (outside chrono's
/// calendar it returns `None`, whose exact bounds are not stated).
#[verifier::external_body]
fn utc_parts(ms: i64) -> (r: Option<UtcParts>)
    ensures
        match r {
            Some(p) => p == utc_parts_spec(ms),
            None => !(0 <= ms <= 253402300799999),
        },
        0 <= ms <= 253402300799999 ==> r is Some,
{
    let dt = chrono::DateTime::<chrono::Utc>::from_timestamp_millis(ms)?;
    Some(
        UtcParts {
            year: dt.year(),
            month: dt.month(),
            day: dt.day(),
            hour: dt.hour(),
            minute: dt.minute(),
            second: dt.second(),
            millis: dt.timestamp_subsec_millis(),
        },
    )
}

/// The UTC fields of `ms`, when chrono can represent the instant.
pub fn utc_fields(ms: i64) -> (r: Option<UtcParts>)
    ensures
        match r {
            Some(p) => p == utc_parts_spec(ms),
            None => !(0 <= ms <= 253402300799999),
        },
        0 <= ms <= 253402300799999 ==> r is Some,
{
    utc_parts(ms)
}

/// `YYYY/MM/DD/` of a date, each field zero-padded.
pub open spec fn date_dirs(p: UtcParts) -> Seq<char> {
    signed_padded(p.year as int, 4) + "/"@ + zero_padded(decimal(p.month as nat), 2) + "/"@
        + zero_padded(decimal(p.day as nat), 2) + "/"@
}

/// `HHMMSS` of a time of day.
pub open spec fn clock_digits(p: UtcParts) -> Seq<char> {
    zero_padded(decimal(p.hour as nat), 2) + zero_padded(decimal(p.minute as nat), 2)
        + zero_padded(decimal(p.second as nat), 2)
}

/// The file extension of a frame format.
pub open spec fn frame_ext(f: CaptureImageFormat) -> Seq<char> {
    match f {
        CaptureImageFormat::Jpeg => "jpg"@,
        CaptureImageFormat::Webp => "webp"@,
    }
}

/// Relative path of a frame image:
/// `YYYY/MM/DD/HHMMSSmmm_m{monitor}.{ext}` in UTC.
pub open spec fn frame_rel_path_spec(p: UtcParts, monitor_id: i32, f: CaptureImageFormat) -> Seq<
    char,
> {
    date_dirs(p) + clock_digits(p) + zero_padded(decimal(p.millis as nat), 3) + "_m"@
        + signed_decimal(monitor_id as int) + "."@ + frame_ext(f)
}

/// Relative path of an archived video: `YYYY/MM/DD/HHMMSS_m{monitor}.mp4`
/// in UTC of its first frame.
pub open spec fn video_rel_path_spec(p: UtcParts, monitor_id: i32) -> Seq<char> {
    date_dirs(p) + clock_digits(p) + "_m"@ + signed_decimal(monitor_id as int) + ".mp4"@
}

fn push_date_dirs(out: &mut Vec<char>, p: UtcParts)
    ensures
        final(out)@ == old(out)@ + date_dirs(p),
{
    push_signed_padded(out, p.year as i64, 4);
    push_str(out, "/");
    push_padded(out, p.month as u64, 2);
    push_str(out, "/");
    push_padded(out, p.day as u64, 2);
    push_str(out, "/");
    proof {
        assert(final(out)@ =~= old(out)@ + date_dirs(p));
    }
}

fn push_clock(out: &mut Vec<char>, p: UtcParts)
    ensures
        final(out)@ == old(out)@ + clock_digits(p),
{
    push_padded(out, p.hour as u64, 2);
    push_padded(out, p.minute as u64, 2);
    push_padded(out, p.second as u64, 2);
    proof {
        assert(final(out)@ =~= old(out)@ + clock_digits(p));
    }
}

/// The relative path of a frame captured at the given UTC fields.
pub fn frame_rel_path_at(p: UtcParts, monitor_id: i32, format: CaptureImageFormat) -> (r: String)
    ensures
        r@ == frame_rel_path_spec(p, monitor_id, format),
{
    let mut v: Vec<char> = Vec::new();
    push_date_dirs(&mut v, p);
    push_clock(&mut v, p);
    push_padded(&mut v, p.millis as u64, 3);
    push_str(&mut v, "_m");
    push_signed(&mut v, monitor_id as i64);
    push_str(&mut v, ".");
    match format {
        CaptureImageFormat::Jpeg => push_str(&mut v, "jpg"),
        CaptureImageFormat::Webp => push_str(&mut v, "webp"),
    }
    proof {
        assert(v@ =~= frame_rel_path_spec(p, monitor_id, format));
    }
    string_from_chars(&v)
}

/// The relative path of a frame captured at `ts_ms`; `None` when the
/// instant is outside chrono's range.
pub fn frame_rel_path(ts_ms: i64, monitor_id: i32, format: CaptureImageFormat) -> (r: Option<String>)
    ensures
        match r {
            Some(s) => s@ == frame_rel_path_spec(utc_parts_spec(ts_ms), monitor_id, format),
            None => !(0 <= ts_ms <= 253402300799999),
        },
        0 <= ts_ms <= 253402300799999 ==> r is Some,
{
    match utc_fields(ts_ms) {
        Some(p) => Some(frame_rel_path_at(p, monitor_id, format)),
        None => None,
    }
}

/// The relative path of a video whose first frame has the given UTC fields.
pub fn video_rel_path_at(p: UtcParts, monitor_id: i32) -> (r: String)
    ensures
        r@ == video_rel_path_spec(p, monitor_id),
{
    let mut v: Vec<char> = Vec::new();
    push_date_dirs(&mut v, p);
    push_clock(&mut v, p);
    push_str(&mut v, "_m");
    push_signed(&mut v, monitor_id as i64);
    push_str(&mut v, ".mp4");
    proof {
        assert(v@ =~= video_rel_path_spec(p, monitor_id));
    }
    string_from_chars(&v)
}

/// The relative path of a video whose first frame was captured at
/// `first_ts`; `None` when the instant is outside chrono's range.
pub fn video_rel_path(first_ts: i64, monitor_id: i32) -> (r: Option<String>)
    ensures
        match r {
            Some(s) => s@ == video_rel_path_spec(utc_parts_spec(first_ts), monitor_id),
            None => !(0 <= first_ts <= 253402300799999),
        },
        0 <= first_ts <= 253402300799999 ==> r is Some,
{
    match utc_fields(first_ts) {
        Some(p) => Some(video_rel_path_at(p, monitor_id)),
        None => None,
    }
}

} // verus!
