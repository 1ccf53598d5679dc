//! Wall-clock time of an instant in a time zone, and its textual forms.
//!
//! Instants are seconds since the Unix epoch (UTC). A time zone shifts an instant by its
//! offset from UTC; the shifted value counts seconds of the local calendar.
use crate::text::{decimal, push_char, push_decimal, push_four_digits, push_str, push_two_digits, zero_padded};
use chrono::{Datelike, Offset, TimeZone};
use vstd::prelude::*;

verus! {

/// The instants that the calendar types represent (about ±253,000 years around 1970).
pub open spec fn in_time_range(t: int) -> bool {
    -8_000_000_000_000 <= t <= 8_000_000_000_000
}

/// Days since 1970-01-01 of a proleptic Gregorian date.
pub open spec fn epoch_days(y: int, m: int, d: int) -> int {
    let yy = if m <= 2 {
        y - 1
    } else {
        y
    };
    let era = yy / 400;
    let yoe = yy - era * 400;
    let mp = if m > 2 {
        m - 3
    } else {
        m + 9
    };
    let doy = (153 * mp + 2) / 5 + d - 1;
    let doe = yoe * 365 + yoe / 4 - yoe / 100 + doy;
    era * 146097 + doe - 719468
}

/// Whether the year has a 29th of February.
pub open spec fn is_leap_year(y: int) -> bool {
    (y % 4 == 0 && y % 100 != 0) || y % 400 == 0
}

/// The number of days of a month.
pub open spec fn days_in_month(y: int, m: int) -> int {
    if m == 2 {
        if is_leap_year(y) {
            29
        } else {
            28
        }
    } else if m == 4 || m == 6 || m == 9 || m == 11 {
        30
    } else {
        31
    }
}

/// Whether year, month and day name a date.
pub open spec fn valid_date(y: int, m: int, d: int) -> bool {
    1 <= m <= 12 && 1 <= d <= days_in_month(y, m)
}

/// The calendar fields of a local wall-clock time.
#[derive(Debug, Clone, Copy)]
pub struct LocalDateTime {
    pub year: i32,
    pub month: u32,
    pub day: u32,
    pub hour: u32,
    pub minute: u32,
    /// Days since 1970-01-01 of the local date.
    pub day_number: i64,
}

/// `ldt` holds the calendar fields of the local seconds `t`.
#[verifier::opaque]
pub open spec fn fields_of(ldt: LocalDateTime, t: int) -> bool {
    &&& ldt.day_number == t / 86400
    &&& valid_date(ldt.year as int, ldt.month as int, ldt.day as int)
    &&& epoch_days(ldt.year as int, ldt.month as int, ldt.day as int) == ldt.day_number
    &&& ldt.hour == (t % 86400) / 3600
    &&& ldt.minute == (t % 3600) / 60
}

/// The proleptic Gregorian date of a day number
/// (`chrono::NaiveDate::from_epoch_days`, read back with `Datelike::{year, month, day}`).
///
/// Claimed of it: a date it returns is a valid date whose day number is `days`, and it
/// returns one for every day number within ±95,000,000 (chrono's dates reach from
/// -262143-01-01 to 262142-12-31).
#[verifier::external_body]
fn civil_from_epoch_days(days: i32) -> (r: Option<(i32, u32, u32)>)
    ensures
        r matches Some((y, m, d)) ==> valid_date(y as int, m as int, d as int) && epoch_days(
            y as int,
            m as int,
            d as int,
        ) == days,
        -95_000_000 <= days <= 95_000_000 ==> r is Some,
{
    chrono::NaiveDate::from_epoch_days(days).map(|date| (date.year(), date.month(), date.day()))
}

/// The calendar fields of local seconds.
pub fn local_date_time(t: i64) -> (ldt: LocalDateTime)
    requires
        -8_000_000_100_000 <= t <= 8_000_000_100_000,
    ensures
        fields_of(ldt, t as int),
        -100_000_000 <= ldt.day_number <= 100_000_000,
{
    let q = t / 86400;
    let m = t % 86400;
    let (day_number, secs_of_day) = if m < 0 {
        (q - 1, m + 86400)
    } else {
        (q, m)
    };
    proof {
        vstd::arithmetic::div_mod::lemma_fundamental_div_mod_converse(
            t as int,
            86400,
            day_number as int,
            secs_of_day as int,
        );
    }
    reveal(fields_of);
    let date = civil_from_epoch_days(day_number as i32);
    match date {
        Some((year, month, day)) => {
            let hour = (secs_of_day / 3600) as u32;
            let minute = ((secs_of_day % 3600) / 60) as u32;
            proof {
                let h = secs_of_day / 3600;
                let r = secs_of_day % 3600;
                vstd::arithmetic::div_mod::lemma_fundamental_div_mod(secs_of_day as int, 3600);
                vstd::arithmetic::div_mod::lemma_fundamental_div_mod_converse(
                    t as int,
                    3600,
                    day_number * 24 + h,
                    r as int,
                );
            }
            LocalDateTime { year, month, day, hour, minute, day_number }
        },
        None => {
            assert(false);
            LocalDateTime { year: 1970, month: 1, day: 1, hour: 0, minute: 0, day_number: 0 }
        },
    }
}


/// The offset from UTC, in seconds, that the IANA zone `name` has at an instant, or `None`
/// when `name` is not a zone that `chrono_tz` knows.
pub uninterp spec fn zone_offset(name: Seq<char>, utc_secs: int) -> Option<int>;

/// Reads `name` as an IANA zone (`chrono_tz::Tz::from_str`) and takes its offset from UTC
/// at the instant (`TimeZone::offset_from_utc_datetime`, `Offset::fix`,
/// `FixedOffset::local_minus_utc`).
///
/// Claimed of it: the result is `zone_offset(name, utc_secs)`; an offset lies strictly
/// within one day. Which names are zones and what offsets they have is the zone database
/// compiled into `chrono_tz` and is not stated.
#[verifier::external_body]
fn offset_in_named_zone(name: &str, utc_secs: i64) -> (r: Option<i32>)
    requires
        in_time_range(utc_secs as int),
    ensures
        match r {
            Some(o) => zone_offset(name@, utc_secs as int) == Some(o as int),
            None => zone_offset(name@, utc_secs as int) is None,
        },
        r matches Some(o) ==> -86400 < o < 86400,
{
    let tz: chrono_tz::Tz = name.parse().ok()?;
    let utc = chrono::DateTime::from_timestamp(utc_secs, 0)?;
    Some(tz.offset_from_utc_datetime(&utc.naive_utc()).fix().local_minus_utc())
}

/// The offset from UTC of the machine's local time zone at an instant
/// (`chrono::Local`, `TimeZone::offset_from_utc_datetime`).
///
/// Claimed of it: the offset lies strictly within one day. The value depends on the
/// machine's configuration and is not stated.
#[verifier::external_body]
fn offset_in_local_zone(utc_secs: i64) -> (o: i32)
    requires
        in_time_range(utc_secs as int),
    ensures
        -86400 < o < 86400,
{
    chrono::DateTime::from_timestamp(utc_secs, 0).map(
        |utc| chrono::Local.offset_from_utc_datetime(&utc.naive_utc()).local_minus_utc(),
    ).unwrap_or(0)
}

/// The current instant (`chrono::Utc::now`, `DateTime::timestamp`).
///
/// Nothing is claimed of the value: it is the time of the call.
#[verifier::external_body]
pub(crate) fn now_seconds() -> (t: i64) {
    chrono::Utc::now().timestamp()
}

/// `o` is an offset that the zone setting `tz` may give at the instant `t`: the named
/// zone's offset when `tz` names a known zone, otherwise some offset of the local zone.
pub open spec fn offset_choice(tz: Option<Seq<char>>, t: int, o: int) -> bool {
    &&& -86400 < o < 86400
    &&& match tz {
        Some(n) => zone_offset(n, t) matches Some(z) ==> o == z,
        None => true,
    }
}

/// The optional zone name's model.
pub open spec fn tz_view(tz: Option<&str>) -> Option<Seq<char>> {
    match tz {
        Some(n) => Some(n@),
        None => None,
    }
}

/// The offset used for an instant: the named zone when it is known, otherwise the local zone.
pub fn offset_for(tz: Option<&str>, utc_secs: i64) -> (o: i32)
    requires
        in_time_range(utc_secs as int),
    ensures
        offset_choice(tz_view(tz), utc_secs as int, o as int),
{
    match tz {
        Some(name) => match offset_in_named_zone(name, utc_secs) {
            Some(o) => o,
            None => offset_in_local_zone(utc_secs),
        },
        None => offset_in_local_zone(utc_secs),
    }
}

/// The wall-clock time of an instant in the zone setting.
pub fn local_date_time_at(tz: Option<&str>, utc_secs: i64) -> (r: (LocalDateTime, Ghost<int>))
    requires
        in_time_range(utc_secs as int),
    ensures
        offset_choice(tz_view(tz), utc_secs as int, r.1@),
        fields_of(r.0, utc_secs + r.1@),
        -100_000_000 <= r.0.day_number <= 100_000_000,
{
    let o = offset_for(tz, utc_secs);
    (local_date_time(utc_secs + o as i64), Ghost(o as int))
}

/// `%Y`: the year zero-padded to four digits, with a sign outside 0..=9999.
pub open spec fn year_text(y: int) -> Seq<char> {
    if 0 <= y < 10000 {
        zero_padded(y as nat, 4)
    } else if y < 0 {
        seq!['-'] + zero_padded((-y) as nat, 4)
    } else {
        seq!['+'] + zero_padded(y as nat, 4)
    }
}

/// `%H:%M`.
pub open spec fn clock_text(ldt: LocalDateTime) -> Seq<char> {
    zero_padded(ldt.hour as nat, 2) + ":"@ + zero_padded(ldt.minute as nat, 2)
}

/// `%Y-%m-%d`.
pub open spec fn ymd_text(ldt: LocalDateTime) -> Seq<char> {
    year_text(ldt.year as int) + "-"@ + zero_padded(ldt.month as nat, 2) + "-"@ + zero_padded(
        ldt.day as nat,
        2,
    )
}

/// `%-m/%-d`.
pub open spec fn md_text(ldt: LocalDateTime) -> Seq<char> {
    decimal(ldt.month as nat) + "/"@ + decimal(ldt.day as nat)
}

/// `%-m月%-d日`.
pub open spec fn md_japanese_text(ldt: LocalDateTime) -> Seq<char> {
    decimal(ldt.month as nat) + "月"@ + decimal(ldt.day as nat) + "日"@
}

/// Appends `%Y`.
pub fn push_year(s: &mut String, y: i32)
    ensures
        final(s)@ == old(s)@ + year_text(y as int),
{
    if 0 <= y && y < 10000 {
        push_four_digits(s, y as u64);
    } else if y < 0 {
        push_char(s, '-');
        let magnitude: u64 = if y == i32::MIN {
            2147483648u64
        } else {
            (-y) as u64
        };
        push_four_digits(s, magnitude);
        assert(s@ =~= old(s)@ + year_text(y as int));
    } else {
        push_char(s, '+');
        push_four_digits(s, y as u64);
        assert(s@ =~= old(s)@ + year_text(y as int));
    }
}

/// Appends `%H:%M`.
pub fn push_clock(s: &mut String, ldt: &LocalDateTime)
    ensures
        final(s)@ == old(s)@ + clock_text(*ldt),
{
    push_two_digits(s, ldt.hour as u64);
    push_str(s, ":");
    push_two_digits(s, ldt.minute as u64);
    assert(s@ =~= old(s)@ + clock_text(*ldt));
}

/// Appends `%Y-%m-%d`.
pub fn push_ymd(s: &mut String, ldt: &LocalDateTime)
    ensures
        final(s)@ == old(s)@ + ymd_text(*ldt),
{
    push_year(s, ldt.year);
    push_str(s, "-");
    push_two_digits(s, ldt.month as u64);
    push_str(s, "-");
    push_two_digits(s, ldt.day as u64);
    assert(s@ =~= old(s)@ + ymd_text(*ldt));
}

/// Appends `%-m/%-d`.
pub fn push_md(s: &mut String, ldt: &LocalDateTime)
    ensures
        final(s)@ == old(s)@ + md_text(*ldt),
{
    push_decimal(s, ldt.month as u64);
    push_str(s, "/");
    push_decimal(s, ldt.day as u64);
    assert(s@ =~= old(s)@ + md_text(*ldt));
}

/// Appends `%-m月%-d日`.
pub fn push_md_japanese(s: &mut String, ldt: &LocalDateTime)
    ensures
        final(s)@ == old(s)@ + md_japanese_text(*ldt),
{
    push_decimal(s, ldt.month as u64);
    push_str(s, "月");
    push_decimal(s, ldt.day as u64);
    push_str(s, "日");
    assert(s@ =~= old(s)@ + md_japanese_text(*ldt));
}


/// Whether the name is a zone known at the instant.
pub fn zone_is_known(name: &str, utc_secs: i64) -> (b: bool)
    requires
        in_time_range(utc_secs as int),
    ensures
        b == (zone_offset(name@, utc_secs as int) is Some),
{
    offset_in_named_zone(name, utc_secs).is_some()
}

} // verus!
