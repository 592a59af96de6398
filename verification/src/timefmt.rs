//! Showing instants: in a configured time zone, and relative to the present
//! in the local time zone ("today", "yesterday", the weekday, the date).
use vstd::prelude::*;
use crate::text::{append_str, str_eq, string_of};
use chrono::Datelike;

verus! {

// ---------------------------------------------------------------------------
// Configured time zone
// ---------------------------------------------------------------------------

/// What `chrono_tz` gives for an instant (nanoseconds since the epoch) in a
/// named zone, written with `Display` (`None` when the name is not a zone).
pub uninterp spec fn spec_tz_display(nanos: i64, tz: Seq<char>) -> Option<Seq<char>>;

/// `tz.parse::<chrono_tz::Tz>()`, then the instant in that zone written
/// with `Display`.
#[verifier::external_body]
fn tz_display(nanos: i64, tz: &str) -> (r: Option<String>)
    ensures
        match r {
            Some(s) => spec_tz_display(nanos, tz@) == Some(s@),
            None => spec_tz_display(nanos, tz@) is None,
        },
{
    let zone = tz.parse::<chrono_tz::Tz>().ok()?;
    Some(format!("{}", chrono::DateTime::from_timestamp_nanos(nanos).with_timezone(&zone)))
}

/// The format of instants written in a fixed offset.
pub open spec fn shifted_format() -> Seq<char> {
    "%Y-%m-%d %H:%M:%S"@
}

/// What `chrono` writes for an instant moved by a number of hours, with a
/// format.
pub uninterp spec fn spec_format_shifted(nanos: i64, hours: i64, fmt: Seq<char>) -> Seq<char>;

/// The instant plus `hours` (`chrono::Duration::hours`), written with
/// `format(fmt)`. Only `%Y-%m-%d %H:%M:%S` is admitted: its items are all
/// valid, so writing it cannot fail.
#[verifier::external_body]
fn format_shifted(nanos: i64, hours: i64, fmt: &str) -> (r: String)
    requires
        -24 <= hours <= 24,
        fmt@ == shifted_format(),
    ensures
        r@ == spec_format_shifted(nanos, hours, fmt@),
{
    (chrono::DateTime::from_timestamp_nanos(nanos) + chrono::Duration::hours(hours)).format(fmt).to_string()
}

/// An instant written in a configured zone; names that are not zones fall
/// back to fixed offsets, and to `+08:00` when unknown.
pub open spec fn spec_convert_to_timezone(nanos: i64, tz: Seq<char>) -> Seq<char> {
    match spec_tz_display(nanos, tz) {
        Some(s) => s,
        None => {
            if tz == "Asia/Shanghai"@ {
                spec_format_shifted(nanos, 8, shifted_format()) + " (+08:00)"@
            } else if tz == "UTC"@ {
                spec_format_shifted(nanos, 0, shifted_format()) + " (UTC)"@
            } else if tz == "Asia/Tokyo"@ {
                spec_format_shifted(nanos, 9, shifted_format()) + " (+09:00)"@
            } else if tz == "America/New_York"@ {
                spec_format_shifted(nanos, -5i64, shifted_format()) + " (-05:00)"@
            } else {
                spec_format_shifted(nanos, 8, shifted_format()) + " (+08:00)"@
            }
        },
    }
}

fn suffixed(s: String, suffix: &str) -> (r: String)
    ensures
        r@ == s@ + suffix@,
{
    let mut v: Vec<char> = Vec::new();
    append_str(&mut v, s.as_str());
    append_str(&mut v, suffix);
    string_of(v.as_slice())
}

/// Writes an instant (nanoseconds since the epoch) in the configured zone.
pub fn convert_to_configured_timezone(utc_nanos: i64, timezone_str: &str) -> (r: String)
    ensures
        r@ == spec_convert_to_timezone(utc_nanos, timezone_str@),
{
    match tz_display(utc_nanos, timezone_str) {
        Some(s) => s,
        None => {
            let f = "%Y-%m-%d %H:%M:%S";
            proof {
                reveal_strlit("%Y-%m-%d %H:%M:%S");
            }
            if str_eq(timezone_str, "Asia/Shanghai") {
                suffixed(format_shifted(utc_nanos, 8, f), " (+08:00)")
            } else if str_eq(timezone_str, "UTC") {
                suffixed(format_shifted(utc_nanos, 0, f), " (UTC)")
            } else if str_eq(timezone_str, "Asia/Tokyo") {
                suffixed(format_shifted(utc_nanos, 9, f), " (+09:00)")
            } else if str_eq(timezone_str, "America/New_York") {
                suffixed(format_shifted(utc_nanos, -5, f), " (-05:00)")
            } else {
                suffixed(format_shifted(utc_nanos, 8, f), " (+08:00)")
            }
        },
    }
}

// ---------------------------------------------------------------------------
// Relative to the present
// ---------------------------------------------------------------------------

/// An instant seen from the present in the local zone: whole days and weeks
/// since then, the weekday (0 for Monday), and the instant written as
/// `%H:%M`, `%m-%d %H:%M` and `%Y-%m-%d`.
#[derive(Debug)]
pub struct LocalView {
    pub days_ago: i64,
    pub weeks_ago: i64,
    pub weekday: u32,
    pub hm: String,
    pub md_hm: String,
    pub ymd: String,
}

/// The formats of the local view: `%H:%M`, `%m-%d %H:%M` and `%Y-%m-%d`.
pub open spec fn local_formats_ok(hm_fmt: Seq<char>, md_hm_fmt: Seq<char>, ymd_fmt: Seq<char>) -> bool {
    &&& hm_fmt == "%H:%M"@
    &&& md_hm_fmt == "%m-%d %H:%M"@
    &&& ymd_fmt == "%Y-%m-%d"@
}

/// The instant seen from the present in the machine's zone
/// (`chrono::Local`), written with the three formats. It depends on the clock
/// and the zone of the machine, so what is stated is the range of the
/// weekday and the widths of the written forms: chrono pads hours, minutes,
/// months and days to two digits and years to four, and every instant of the
/// `i64` nanosecond range lies in a four-digit year.
#[verifier::external_body]
fn local_view(nanos: i64, hm_fmt: &str, md_hm_fmt: &str, ymd_fmt: &str) -> (r: LocalView)
    requires
        local_formats_ok(hm_fmt@, md_hm_fmt@, ymd_fmt@),
    ensures
        r.weekday < 7,
        r.hm@.len() == 5,
        r.md_hm@.len() == 11,
        r.ymd@.len() == 10,
{
    let local = chrono::DateTime::from_timestamp_nanos(nanos).with_timezone(&chrono::Local);
    let diff = chrono::Local::now().signed_duration_since(local);
    LocalView {
        days_ago: diff.num_days(), weeks_ago: diff.num_weeks(),
        weekday: local.weekday().num_days_from_monday(), hm: local.format(hm_fmt).to_string(),
        md_hm: local.format(md_hm_fmt).to_string(), ymd: local.format(ymd_fmt).to_string(),
    }
}

pub open spec fn weekday_name(d: u32) -> Seq<char> {
    if d == 0 {
        "周一"@
    } else if d == 1 {
        "周二"@
    } else if d == 2 {
        "周三"@
    } else if d == 3 {
        "周四"@
    } else if d == 4 {
        "周五"@
    } else if d == 5 {
        "周六"@
    } else {
        "周日"@
    }
}

/// How an instant is shown: the time for today, `昨天` and the time for
/// yesterday, the weekday and time within the week, month, day and time
/// within thirty days, the date otherwise.
pub open spec fn spec_format_local(v: LocalView) -> Seq<char> {
    if v.days_ago == 0 {
        v.hm@
    } else if v.days_ago == 1 {
        "昨天 "@ + v.hm@
    } else if v.weeks_ago == 0 {
        weekday_name(v.weekday) + " "@ + v.hm@
    } else if v.days_ago < 30 {
        v.md_hm@
    } else {
        v.ymd@
    }
}

/// Shows an instant seen from the present.
pub fn format_local(v: &LocalView) -> (r: String)
    ensures
        r@ == spec_format_local(*v),
{
    if v.days_ago == 0 {
        v.hm.clone()
    } else if v.days_ago == 1 {
        let mut s: Vec<char> = Vec::new();
        append_str(&mut s, "昨天 ");
        append_str(&mut s, v.hm.as_str());
        string_of(s.as_slice())
    } else if v.weeks_ago == 0 {
        let name = if v.weekday == 0 {
            "周一"
        } else if v.weekday == 1 {
            "周二"
        } else if v.weekday == 2 {
            "周三"
        } else if v.weekday == 3 {
            "周四"
        } else if v.weekday == 4 {
            "周五"
        } else if v.weekday == 5 {
            "周六"
        } else {
            "周日"
        };
        let mut s: Vec<char> = Vec::new();
        append_str(&mut s, name);
        append_str(&mut s, " ");
        append_str(&mut s, v.hm.as_str());
        string_of(s.as_slice())
    } else if v.days_ago < 30 {
        v.md_hm.clone()
    } else {
        v.ymd.clone()
    }
}

/// Shows an instant (nanoseconds since the epoch) relative to the present
/// in the local zone: a time (`HH:MM`), possibly after `昨天` or a weekday, a
/// month, day and time, or a date.
pub fn format_datetime(nanos: i64) -> (r: String)
    ensures
        exists|v: LocalView|
            v.weekday < 7 && v.hm@.len() == 5 && v.md_hm@.len() == 11 && v.ymd@.len() == 10 && r@
                == #[trigger] spec_format_local(v),
{
    let hm = "%H:%M";
    let md = "%m-%d %H:%M";
    let ymd = "%Y-%m-%d";
    proof {
        reveal_strlit("%H:%M");
        reveal_strlit("%m-%d %H:%M");
        reveal_strlit("%Y-%m-%d");
    }
    let v = local_view(nanos, hm, md, ymd);
    let r = format_local(&v);
    assert(r@ == spec_format_local(v));
    r
}

} // verus!
