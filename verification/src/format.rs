//! The texts that the clip library shows for durations and dates.
use vstd::prelude::*;
use chrono::{Datelike, Timelike};
use crate::text::{decimal, pad2, push_decimal, push_pad2, extend_str, extend_chars, string_from_chars};

verus! {

/// A duration given in seconds, as the library shows it. The long form is
/// the one of the properties dialog, the short one that of a clip's card.
pub open spec fn duration_text(secs: nat, long: bool) -> Seq<char> {
    let h = secs / 3600;
    let m = (secs % 3600) / 60;
    let s = secs % 60;
    if h > 0 {
        decimal(h) + seq![':'] + pad2(m) + seq![':'] + pad2(s)
    } else if long {
        if m > 0 {
            pad2(m) + seq![':'] + pad2(s)
        } else if s == 1 {
            "1 second"@
        } else {
            decimal(s) + " seconds"@
        }
    } else if m > 0 {
        decimal(m) + seq![':'] + pad2(s)
    } else {
        decimal(s) + seq!['s']
    }
}

/// Every duration text reads back as the duration it stands for: `H:MM:SS`
/// from an hour on, `MM:SS` (long) or `M:SS` (short) from a minute on, and
/// `N seconds` (`1 second`) or `Ns` below a minute, where the numbers read
/// as hours, minutes and seconds add up to `secs`.
pub proof fn law_duration_reads_back(secs: nat, long: bool)
    ensures
        ({
            let t = duration_text(secs, long);
            let n = t.len() as int;
            secs >= 3600 ==> {
                &&& n >= 7
                &&& t[n - 6] == ':'
                &&& t[n - 3] == ':'
                &&& crate::kde::all_digits(t.take(n - 6))
                &&& crate::kde::all_digits(t.subrange(n - 5, n - 3))
                &&& crate::kde::all_digits(t.skip(n - 2))
                &&& crate::kde::digits_value(t.take(n - 6)) * 3600 + crate::kde::digits_value(t.subrange(n - 5, n - 3)) * 60 + crate::kde::digits_value(t.skip(n - 2)) == secs
                &&& crate::kde::digits_value(t.subrange(n - 5, n - 3)) < 60
                &&& crate::kde::digits_value(t.skip(n - 2)) < 60
            }
        }),
        ({
            let t = duration_text(secs, long);
            let n = t.len() as int;
            60 <= secs < 3600 ==> {
                &&& (long ==> n == 5)
                &&& n >= 4
                &&& t[n - 3] == ':'
                &&& crate::kde::all_digits(t.take(n - 3))
                &&& crate::kde::all_digits(t.skip(n - 2))
                &&& crate::kde::digits_value(t.take(n - 3)) * 60 + crate::kde::digits_value(t.skip(n - 2)) == secs
                &&& crate::kde::digits_value(t.skip(n - 2)) < 60
            }
        }),
        ({
            let t = duration_text(secs, long);
            let n = t.len() as int;
            secs < 60 ==> {
                &&& (long && secs == 1 ==> t == "1 second"@)
                &&& (long && secs != 1 ==> n > 8 && t.skip(n - 8) == " seconds"@ && crate::kde::all_digits(t.take(n - 8)) && crate::kde::digits_value(t.take(n - 8)) == secs)
                &&& (!long ==> n > 1 && t[n - 1] == 's' && crate::kde::all_digits(t.take(n - 1)) && crate::kde::digits_value(t.take(n - 1)) == secs)
            }
        }),
{
    let t = duration_text(secs, long);
    let h = secs / 3600;
    let m = (secs % 3600) / 60;
    let sec = secs % 60;
    assert(h * 3600 + m * 60 + sec == secs);
    crate::text::lemma_decimal_reads_back(h);
    crate::text::lemma_decimal_reads_back(m);
    crate::text::lemma_decimal_reads_back(sec);
    crate::text::lemma_pad2_reads_back(m);
    crate::text::lemma_pad2_reads_back(sec);
    let colon = seq![':'];
    if h > 0 {
        let x = decimal(h);
        let y = pad2(m);
        let z = pad2(sec);
        assert(t == x + colon + y + colon + z);
        let n = t.len() as int;
        assert(t.take(n - 6) =~= x);
        assert(t.subrange(n - 5, n - 3) =~= y);
        assert(t.skip(n - 2) =~= z);
    } else if long {
        if m > 0 {
            let y = pad2(m);
            let z = pad2(sec);
            assert(t == y + colon + z);
            assert(t.take(2) =~= y);
            assert(t.skip(3) =~= z);
        } else if sec == 1 {
        } else {
            reveal_strlit(" seconds");
            let x = decimal(sec);
            assert(t == x + " seconds"@);
            let n = t.len() as int;
            assert(t.take(n - 8) =~= x);
            assert(t.skip(n - 8) =~= " seconds"@);
        }
    } else if m > 0 {
        let x = decimal(m);
        let z = pad2(sec);
        assert(t == x + colon + z);
        let n = t.len() as int;
        assert(t.take(n - 3) =~= x);
        assert(t.skip(n - 2) =~= z);
    } else {
        let x = decimal(sec);
        assert(t == x + seq!['s']);
        let n = t.len() as int;
        assert(t.take(n - 1) =~= x);
    }
}

/// Formats a duration given in seconds (see [`duration_text`]).
pub fn format_duration(secs: u64, long: bool) -> (r: String)
    ensures
        r@ == duration_text(secs as nat, long),
{
    let h = secs / 3600;
    let m = (secs % 3600) / 60;
    let s = secs % 60;
    let mut out: Vec<char> = Vec::new();
    if h > 0 {
        push_decimal(&mut out, h);
        out.push(':');
        push_pad2(&mut out, m);
        out.push(':');
        push_pad2(&mut out, s);
    } else if long {
        if m > 0 {
            push_pad2(&mut out, m);
            out.push(':');
            push_pad2(&mut out, s);
        } else if s == 1 {
            return "1 second".to_string();
        } else {
            push_decimal(&mut out, s);
            extend_str(&mut out, " seconds");
        }
    } else if m > 0 {
        push_decimal(&mut out, m);
        out.push(':');
        push_pad2(&mut out, s);
    } else {
        push_decimal(&mut out, s);
        out.push('s');
    }
    string_from_chars(out.as_slice())
}

/// A local calendar date and wall-clock time, to the second.
#[derive(Debug, Clone, Copy, PartialEq, Eq, Structural)]
pub struct LocalDateTime {
    pub year: i32,
    pub month: u32,
    pub day: u32,
    pub hour: u32,
    pub minute: u32,
    pub second: u32,
}

/// Whether `y` is a leap year of the proleptic Gregorian calendar.
pub open spec fn is_leap_year(y: int) -> bool {
    (y % 4 == 0 && y % 100 != 0) || y % 400 == 0
}

/// Number of days of month `m` of year `y`.
pub open spec fn days_in_month(y: int, m: int) -> int {
    if m == 2 {
        if is_leap_year(y) {
            29
        } else {
            28
        }
    } else if m == 4 || m == 6 || m == 9 || m == 11 {
        30
    } else {
        31
    }
}

/// Whether the fields name an existing moment that chrono can represent.
pub open spec fn valid_datetime(d: LocalDateTime) -> bool {
    &&& -262143 <= d.year <= 262142
    &&& 1 <= d.month <= 12
    &&& 1 <= d.day <= days_in_month(d.year as int, d.month as int)
    &&& d.hour < 24
    &&& d.minute < 60
    &&& d.second < 60
}

/// Whether the fields lie in the ranges of a calendar date and a time of day.
pub open spec fn datetime_fields_in_range(d: LocalDateTime) -> bool {
    &&& 1 <= d.month <= 12
    &&& 1 <= d.day <= 31
    &&& d.hour < 24
    &&& d.minute < 60
    &&& d.second < 60
}

/// The day before `(y, m, d)`.
pub open spec fn previous_day(y: int, m: int, d: int) -> (int, int, int) {
    if d > 1 {
        (y, m, d - 1)
    } else if m > 1 {
        (y, m - 1, days_in_month(y, m - 1))
    } else {
        (y - 1, 12, 31)
    }
}

/// Whether two moments fall on the same calendar day.
pub open spec fn same_day(a: LocalDateTime, y: int, m: int, d: int) -> bool {
    a.year == y && a.month == m && a.day == d
}

proof fn lemma_month_abbrev_first(m: int)
    ensures
        month_abbrev(m).len() == 3,
        month_abbrev(m)[0] != 'T',
        month_abbrev(m)[0] != 'Y',
{
    reveal_strlit("Jan");
    reveal_strlit("Feb");
    reveal_strlit("Mar");
    reveal_strlit("Apr");
    reveal_strlit("May");
    reveal_strlit("Jun");
    reveal_strlit("Jul");
    reveal_strlit("Aug");
    reveal_strlit("Sep");
    reveal_strlit("Oct");
    reveal_strlit("Nov");
    reveal_strlit("Dec");
}

/// A clip's short date begins with "Today at " exactly when it was recorded
/// on today's calendar date: the same year, month and day.
pub proof fn law_today_means_same_date(d: LocalDateTime, now: LocalDateTime)
    ensures
        (date_text(d, now, false).len() >= 9 && date_text(d, now, false).take(9) == "Today at "@) <==> (d.year == now.year && d.month == now.month && d.day == now.day),
{
    reveal_strlit("Today at ");
    reveal_strlit("Yesterday at ");
    reveal_strlit("%b %d, %Y, %-l:%M:%S %p");
    reveal_strlit("%-l:%M %p");
    reveal_strlit("%b %d at %-l:%M %p");
    reveal_strlit("%b %d %Y at %-l:%M %p");
    let t = date_text(d, now, false);
    let (py, pm, pd) = previous_day(now.year as int, now.month as int, now.day as int);
    if same_day(d, now.year as int, now.month as int, now.day as int) {
        assert(t == "Today at "@ + strftime(d, time_pattern()));
        assert(t.take(9) =~= "Today at "@);
    } else {
        if same_day(d, py, pm, pd) {
            assert(t == "Yesterday at "@ + strftime(d, time_pattern()));
            assert(t[0] == 'Y');
        } else {
            lemma_month_abbrev_first(d.month as int);
            assert(long_pattern().len() != month_day_pattern().len());
            assert(time_pattern().len() != month_day_pattern().len());
            assert(long_pattern().len() != month_day_year_pattern().len());
            assert(time_pattern().len() != month_day_year_pattern().len());
            assert(month_day_pattern().len() != month_day_year_pattern().len());
            let day = month_abbrev(d.month as int) + " "@ + pad2(d.day as nat);
            assert(day[0] == month_abbrev(d.month as int)[0]);
            if d.year == now.year {
                assert(t == strftime(d, month_day_pattern()));
                assert(t == day + " at "@ + clock_text(d));
            } else {
                assert(t == strftime(d, month_day_year_pattern()));
                assert(t == day + " "@ + year_text(d.year as int) + " at "@ + clock_text(d));
            }
            assert(t[0] == month_abbrev(d.month as int)[0]);
        }
        if t.len() >= 9 && t.take(9) == "Today at "@ {
            assert(t.take(9)[0] == t[0]);
        }
    }
}

/// For calendar dates, a clip's short date begins with "Yesterday at "
/// exactly when it was recorded on the day just before today's.
pub proof fn law_yesterday_means_day_before(d: LocalDateTime, now: LocalDateTime)
    requires
        calendar_date(d.year as int, d.month as int, d.day as int),
        calendar_date(now.year as int, now.month as int, now.day as int),
    ensures
        (date_text(d, now, false).len() >= 13 && date_text(d, now, false).take(13) == "Yesterday at "@) <==> unix_day(d.year as int, d.month as int, d.day as int) + 1 == unix_day(now.year as int, now.month as int, now.day as int),
{
    reveal_strlit("Today at ");
    reveal_strlit("Yesterday at ");
    reveal_strlit("%b %d, %Y, %-l:%M:%S %p");
    reveal_strlit("%-l:%M %p");
    reveal_strlit("%b %d at %-l:%M %p");
    reveal_strlit("%b %d %Y at %-l:%M %p");
    let t = date_text(d, now, false);
    let (py, pm, pd) = previous_day(now.year as int, now.month as int, now.day as int);
    lemma_previous_day(now.year as int, now.month as int, now.day as int);
    let ud = unix_day(d.year as int, d.month as int, d.day as int);
    let un = unix_day(now.year as int, now.month as int, now.day as int);
    if same_day(d, now.year as int, now.month as int, now.day as int) {
        assert(t == "Today at "@ + strftime(d, time_pattern()));
        assert(t[0] == 'T');
    } else if same_day(d, py, pm, pd) {
        assert(t == "Yesterday at "@ + strftime(d, time_pattern()));
        assert(t.take(13) =~= "Yesterday at "@);
    } else {
        lemma_month_abbrev_first(d.month as int);
        assert(long_pattern().len() != month_day_pattern().len());
        assert(time_pattern().len() != month_day_pattern().len());
        assert(long_pattern().len() != month_day_year_pattern().len());
        assert(time_pattern().len() != month_day_year_pattern().len());
        assert(month_day_pattern().len() != month_day_year_pattern().len());
        let day = month_abbrev(d.month as int) + " "@ + pad2(d.day as nat);
        assert(day[0] == month_abbrev(d.month as int)[0]);
        if d.year == now.year {
            assert(t == day + " at "@ + clock_text(d));
        } else {
            assert(t == day + " "@ + year_text(d.year as int) + " at "@ + clock_text(d));
        }
        assert(t[0] == month_abbrev(d.month as int)[0]);
        if ud + 1 == un {
            lemma_unix_day_injective(d.year as int, d.month as int, d.day as int, py, pm, pd);
        }
    }
    if t.len() >= 13 && t.take(13) == "Yesterday at "@ {
        assert(t.take(13)[0] == t[0]);
    }
}

/// An older clip's short date shows the year exactly when it is not this
/// year's: after the month and the day (`Mmm DD`) comes " at " for a clip of
/// this year, and the year for one of another year.
pub proof fn law_year_shown_for_other_years(d: LocalDateTime, now: LocalDateTime)
    requires
        calendar_date(d.year as int, d.month as int, d.day as int),
        !same_day(d, now.year as int, now.month as int, now.day as int),
        ({
            let (py, pm, pd) = previous_day(now.year as int, now.month as int, now.day as int);
            !same_day(d, py, pm, pd)
        }),
    ensures
        date_text(d, now, false).len() > 7,
        (date_text(d, now, false)[6] == ' ' && date_text(d, now, false)[7] == 'a') <==> d.year == now.year,
{
    reveal_strlit(" at ");
    reveal_strlit(" ");
    reveal_strlit("%b %d, %Y, %-l:%M:%S %p");
    reveal_strlit("%-l:%M %p");
    reveal_strlit("%b %d at %-l:%M %p");
    reveal_strlit("%b %d %Y at %-l:%M %p");
    reveal_strlit("000");
    reveal_strlit("00");
    reveal_strlit("0");
    reveal_strlit("-");
    reveal_strlit("+");
    let t = date_text(d, now, false);
    lemma_month_abbrev_first(d.month as int);
    crate::text::lemma_pad2_reads_back(d.day as nat);
    assert(long_pattern().len() != month_day_pattern().len());
    assert(time_pattern().len() != month_day_pattern().len());
    assert(long_pattern().len() != month_day_year_pattern().len());
    assert(time_pattern().len() != month_day_year_pattern().len());
    assert(month_day_pattern().len() != month_day_year_pattern().len());
    let day = month_abbrev(d.month as int) + " "@ + pad2(d.day as nat);
    assert(day.len() == 6);
    if d.year == now.year {
        let rest = " at "@ + clock_text(d);
        assert(t == day + rest);
        assert(t[6] == rest[0]);
        assert(t[7] == rest[1]);
    } else {
        let y = d.year as int;
        let yt = year_text(y);
        let rest = " "@ + yt + " at "@ + clock_text(d);
        assert(t == day + rest);
        assert(t[7] == rest[1]);
        assert(rest[1] == yt[0]);
        if 0 <= y <= 9999 {
            crate::text::lemma_decimal_reads_back(y as nat);
            assert(decimal(y as nat).len() >= 1);
            assert('0' <= decimal(y as nat)[0] <= '9');
            assert(yt[0] == '0' || yt[0] == decimal(y as nat)[0]);
        } else if y < 0 {
            assert(yt[0] == '-');
        } else {
            assert(yt[0] == '+');
        }
    }
}

/// The chrono format strings that the library uses.
pub open spec fn long_pattern() -> Seq<char> {
    "%b %d, %Y, %-l:%M:%S %p"@
}

pub open spec fn time_pattern() -> Seq<char> {
    "%-l:%M %p"@
}

pub open spec fn month_day_pattern() -> Seq<char> {
    "%b %d at %-l:%M %p"@
}

pub open spec fn month_day_year_pattern() -> Seq<char> {
    "%b %d %Y at %-l:%M %p"@
}

pub open spec fn known_pattern(f: Seq<char>) -> bool {
    f == long_pattern() || f == time_pattern() || f == month_day_pattern() || f
        == month_day_year_pattern()
}

/// The English abbreviation of month `m`, as chrono's `%b` writes it.
pub open spec fn month_abbrev(m: int) -> Seq<char> {
    if m == 1 {
        "Jan"@
    } else if m == 2 {
        "Feb"@
    } else if m == 3 {
        "Mar"@
    } else if m == 4 {
        "Apr"@
    } else if m == 5 {
        "May"@
    } else if m == 6 {
        "Jun"@
    } else if m == 7 {
        "Jul"@
    } else if m == 8 {
        "Aug"@
    } else if m == 9 {
        "Sep"@
    } else if m == 10 {
        "Oct"@
    } else if m == 11 {
        "Nov"@
    } else {
        "Dec"@
    }
}

/// `n` zero-padded to at least four digits.
pub open spec fn pad4(n: nat) -> Seq<char> {
    if n < 10 {
        "000"@ + decimal(n)
    } else if n < 100 {
        "00"@ + decimal(n)
    } else if n < 1000 {
        "0"@ + decimal(n)
    } else {
        decimal(n)
    }
}

/// The year as chrono's `%Y` writes it: four digits or more, with a sign
/// for a year before 0 or after 9999.
pub open spec fn year_text(y: int) -> Seq<char> {
    if 0 <= y <= 9999 {
        pad4(y as nat)
    } else if y < 0 {
        "-"@ + pad4((-y) as nat)
    } else {
        "+"@ + pad4(y as nat)
    }
}

/// The hour on a 12-hour clock, 1 to 12.
pub open spec fn hour12(h: int) -> nat {
    if h % 12 == 0 {
        12
    } else {
        (h % 12) as nat
    }
}

/// `AM` before noon, `PM` from noon on, as chrono's `%p` writes it.
pub open spec fn am_pm(h: int) -> Seq<char> {
    if h >= 12 {
        "PM"@
    } else {
        "AM"@
    }
}

/// The time of day as `%-l:%M %p` writes it.
pub open spec fn clock_text(d: LocalDateTime) -> Seq<char> {
    decimal(hour12(d.hour as int)) + ":"@ + pad2(d.minute as nat) + " "@ + am_pm(d.hour as int)
}

/// The text that chrono's `format` writes for `d` with one of the library's
/// patterns.
pub open spec fn strftime(d: LocalDateTime, fmt: Seq<char>) -> Seq<char> {
    let day = month_abbrev(d.month as int) + " "@ + pad2(d.day as nat);
    if fmt == long_pattern() {
        day + ", "@ + year_text(d.year as int) + ", "@ + decimal(hour12(d.hour as int)) + ":"@ + pad2(
            d.minute as nat,
        ) + ":"@ + pad2(d.second as nat) + " "@ + am_pm(d.hour as int)
    } else if fmt == time_pattern() {
        clock_text(d)
    } else if fmt == month_day_pattern() {
        day + " at "@ + clock_text(d)
    } else {
        day + " "@ + year_text(d.year as int) + " at "@ + clock_text(d)
    }
}

/// Formats the moment `d` with chrono (`NaiveDateTime::format`) and one of
/// the library's patterns, without locale: `%b` writes the English month
/// abbreviation, `%d`, `%M` and `%S` two zero-padded digits, `%Y` the year
/// (see [`year_text`]), `%-l` the 12-hour clock's hour unpadded and `%p`
/// `AM` or `PM`.
#[verifier::external_body]
fn format_datetime(d: &LocalDateTime, fmt: &str) -> (s: String)
    requires
        valid_datetime(*d),
        known_pattern(fmt@),
    ensures
        s@ == strftime(*d, fmt@),
{
    chrono::NaiveDate::from_ymd_opt(d.year, d.month, d.day)
        .and_then(|x| x.and_hms_opt(d.hour, d.minute, d.second))
        .unwrap()
        .format(fmt)
        .to_string()
}

/// The seconds since the UNIX epoch that `t` stands for when read as a
/// signed 64-bit number (`t as i64`).
pub open spec fn signed_secs(t: u64) -> int {
    if t <= 0x7fff_ffff_ffff_ffff {
        t as int
    } else {
        t - 0x1_0000_0000_0000_0000
    }
}

/// Whether chrono represents the UTC moment `secs` seconds after the UNIX
/// epoch: from -262143-01-01 00:00:00 to 262142-12-31 23:59:59.
pub open spec fn in_chrono_range(secs: int) -> bool {
    -8_334_601_228_800 <= secs <= 8_210_266_876_799
}

/// Whether the UTC moment `secs` lies two days after the start of chrono's
/// range and a day before its end, so that its local time in any time zone
/// (whose offset is under a day) is representable too, and does not fall on
/// chrono's first day, which has no day before it.
pub open spec fn well_inside_chrono_range(secs: int) -> bool {
    -8_334_601_228_800 + 2 * 86_400 <= secs <= 8_210_266_876_799 - 86_400
}

/// Days from 0001-01-01 to January 1 of year `y` of the proleptic Gregorian
/// calendar.
pub open spec fn days_before_year(y: int) -> int {
    let p = y - 1;
    p * 365 + p / 4 - p / 100 + p / 400
}

/// Days of year `y` before the first of month `m`.
pub open spec fn days_before_month(y: int, m: int) -> int {
    let base: int = if m <= 1 {
        0
    } else if m == 2 {
        31
    } else if m == 3 {
        59
    } else if m == 4 {
        90
    } else if m == 5 {
        120
    } else if m == 6 {
        151
    } else if m == 7 {
        181
    } else if m == 8 {
        212
    } else if m == 9 {
        243
    } else if m == 10 {
        273
    } else if m == 11 {
        304
    } else {
        334
    };
    if m > 2 && is_leap_year(y) {
        base + 1
    } else {
        base
    }
}

/// Days from 1970-01-01 to the date `(y, m, d)`.
pub open spec fn unix_day(y: int, m: int, d: int) -> int {
    days_before_year(y) + days_before_month(y, m) + d - 1 - 719_162
}

/// The wall-clock moment `d`, read as UTC, in seconds since the UNIX epoch.
pub open spec fn civil_secs(d: LocalDateTime) -> int {
    unix_day(d.year as int, d.month as int, d.day as int) * 86_400 + d.hour * 3_600 + d.minute * 60
        + d.second
}

/// Whether `d` can be the local time of the UTC moment `secs` in some time
/// zone: the moment shifted by an offset of less than a day.
pub open spec fn local_time_of(secs: int, d: LocalDateTime) -> bool {
    secs - 86_400 < civil_secs(d) < secs + 86_400
}

proof fn lemma_div_step(y: int, k: int)
    requires
        k > 0,
    ensures
        y / k - (y - 1) / k == if y % k == 0 { 1int } else { 0int },
{
    assert(y == k * (y / k) + y % k) by (nonlinear_arith)
        requires
            k > 0,
    ;
    assert(y - 1 == k * ((y - 1) / k) + (y - 1) % k) by (nonlinear_arith)
        requires
            k > 0,
    ;
    assert(0 <= y % k < k);
    assert(0 <= (y - 1) % k < k);
    let q = y / k - (y - 1) / k;
    assert(k * q == 1 + (y - 1) % k - y % k) by (nonlinear_arith)
        requires
            y == k * (y / k) + y % k,
            y - 1 == k * ((y - 1) / k) + (y - 1) % k,
            q == y / k - (y - 1) / k,
    ;
    if q >= 2 {
        assert(k * q >= 2 * k) by (nonlinear_arith)
            requires
                q >= 2,
                k > 0,
        ;
    }
    if q <= -1 {
        assert(k * q <= -k) by (nonlinear_arith)
            requires
                q <= -1,
                k > 0,
        ;
    }
    if q == 1 {
        assert(k * q == k) by (nonlinear_arith)
            requires
                q == 1,
        ;
        assert(y % k == 0);
    } else {
        assert(q == 0);
        assert(k * q == 0) by (nonlinear_arith)
            requires
                q == 0,
        ;
        if y % k == 0 {
            assert((y - 1) % k == -1);
        }
    }
}

/// A year has 365 days, and 366 when it is a leap year.
proof fn lemma_year_length(y: int)
    ensures
        days_before_year(y + 1) == days_before_year(y) + if is_leap_year(y) { 366int } else { 365int },
{
    lemma_div_step(y, 4);
    lemma_div_step(y, 100);
    lemma_div_step(y, 400);
    assert(y % 400 == 0 ==> y % 100 == 0 && y % 4 == 0);
    assert(y % 100 == 0 ==> y % 4 == 0);
}

/// Later years start later.
proof fn lemma_years_increase(a: int, b: int)
    requires
        a <= b,
    ensures
        days_before_year(a) <= days_before_year(b),
    decreases b - a,
{
    if a < b {
        lemma_year_length(a);
        lemma_years_increase(a + 1, b);
    }
}

/// Whether `(y, m, d)` is a date of the calendar, whatever the year.
pub open spec fn calendar_date(y: int, m: int, d: int) -> bool {
    1 <= m <= 12 && 1 <= d <= days_in_month(y, m)
}

proof fn lemma_months_fill_year(y: int, m1: int, m2: int)
    requires
        1 <= m1 < m2 <= 12,
    ensures
        days_before_month(y, m1) + days_in_month(y, m1) <= days_before_month(y, m2),
        days_before_month(y, m2) + days_in_month(y, m2) <= days_before_year(y + 1) - days_before_year(y),
{
    lemma_year_length(y);
}

/// A date lies in its year: after the year's start and before the next one's.
proof fn lemma_date_in_year(y: int, m: int, d: int)
    requires
        calendar_date(y, m, d),
    ensures
        days_before_year(y) - 719_162 <= unix_day(y, m, d) < days_before_year(y + 1) - 719_162,
{
    lemma_year_length(y);
}

/// Different calendar dates are different days.
pub proof fn lemma_unix_day_injective(y1: int, m1: int, d1: int, y2: int, m2: int, d2: int)
    requires
        calendar_date(y1, m1, d1),
        calendar_date(y2, m2, d2),
        unix_day(y1, m1, d1) == unix_day(y2, m2, d2),
    ensures
        y1 == y2 && m1 == m2 && d1 == d2,
{
    lemma_date_in_year(y1, m1, d1);
    lemma_date_in_year(y2, m2, d2);
    if y1 < y2 {
        lemma_years_increase(y1 + 1, y2);
    } else if y2 < y1 {
        lemma_years_increase(y2 + 1, y1);
    } else {
        if m1 < m2 {
            lemma_months_fill_year(y1, m1, m2);
        } else if m2 < m1 {
            lemma_months_fill_year(y1, m2, m1);
        }
    }
}

/// The day before a calendar date is a calendar date, one day earlier.
pub proof fn lemma_previous_day(y: int, m: int, d: int)
    requires
        calendar_date(y, m, d),
    ensures
        ({
            let (py, pm, pd) = previous_day(y, m, d);
            calendar_date(py, pm, pd) && unix_day(py, pm, pd) + 1 == unix_day(y, m, d)
        }),
{
    if d == 1 && m > 1 {
        lemma_months_fill_year(y, m - 1, m);
        assert(days_before_month(y, m) == days_before_month(y, m - 1) + days_in_month(y, m - 1));
    } else if d == 1 {
        lemma_year_length(y - 1);
        lemma_months_fill_year(y - 1, 11, 12);
        assert(days_before_month(y - 1, 12) + 31 == days_before_year(y) - days_before_year(y - 1));
    }
}

/// Chrono's first day, -262143-01-01, holds no moment of the UTC range that
/// starts two days after it, in any time zone.
proof fn lemma_not_first_day(secs: int, d: LocalDateTime)
    requires
        well_inside_chrono_range(secs),
        local_time_of(secs, d),
        datetime_fields_in_range(d),
    ensures
        !(d.year == -262143 && d.month == 1 && d.day == 1),
{
    if d.year == -262143 && d.month == 1 && d.day == 1 {
        assert(days_before_year(-262143) == -95_746_130);
        assert(unix_day(-262143, 1, 1) == -96_465_292);
        assert(civil_secs(d) == -96_465_292 * 86_400 + d.hour * 3_600 + d.minute * 60 + d.second);
        assert(d.hour * 3_600 + d.minute * 60 + d.second < 86_400) by (nonlinear_arith)
            requires
                d.hour < 24,
                d.minute < 60,
                d.second < 60,
        ;
    }
}

/// The local time of a UNIX timestamp (chrono's `DateTime::from_timestamp_secs`
/// of `timestamp as i64`, in the machine's time zone through `with_timezone`).
/// chrono gives `None` for a moment out of its range. Its local time is the
/// UTC moment shifted by the zone's offset, which chrono keeps under a day;
/// a moment well inside the range has a local time that names a
/// representable moment. Which offset applies depends on the time zone, so
/// it is not stated.
#[verifier::external_body]
fn local_from_timestamp(timestamp: u64) -> (r: Option<LocalDateTime>)
    ensures
        !in_chrono_range(signed_secs(timestamp)) ==> r is None,
        well_inside_chrono_range(signed_secs(timestamp)) ==> r is Some,
        r matches Some(d) ==> datetime_fields_in_range(d) && local_time_of(signed_secs(timestamp), d),
        r matches Some(d) ==> (well_inside_chrono_range(signed_secs(timestamp)) ==> valid_datetime(d)),
{
    chrono::DateTime::from_timestamp_secs(timestamp as i64).map(|t| {
        let l = t.with_timezone(&chrono::Local);
        LocalDateTime {
            year: l.year(),
            month: l.month(),
            day: l.day(),
            hour: l.hour(),
            minute: l.minute(),
            second: l.second(),
        }
    })
}

/// The whole seconds since the UNIX epoch that the system clock reads
/// (`SystemTime::now`, measured by `duration_since(UNIX_EPOCH)`); `None` when
/// the clock reads before the epoch. What it reads is the clock's, so
/// nothing is stated of it.
#[verifier::external_body]
fn clock_secs() -> Option<u64> {
    std::time::SystemTime::now().duration_since(std::time::UNIX_EPOCH).ok().map(|t| t.as_secs())
}

/// The text shown for the moment `d` when it is now `now`: the full date in
/// the long form; otherwise "Today at"/"Yesterday at" and the time, or the
/// month and day (and the year, when it is not this year's) and the time.
pub open spec fn date_text(d: LocalDateTime, now: LocalDateTime, long: bool) -> Seq<char> {
    let (py, pm, pd) = previous_day(now.year as int, now.month as int, now.day as int);
    if long {
        strftime(d, long_pattern())
    } else if same_day(d, now.year as int, now.month as int, now.day as int) {
        "Today at "@ + strftime(d, time_pattern())
    } else if same_day(d, py, pm, pd) {
        "Yesterday at "@ + strftime(d, time_pattern())
    } else if d.year == now.year {
        strftime(d, month_day_pattern())
    } else {
        strftime(d, month_day_year_pattern())
    }
}

fn is_leap(y: i32) -> (b: bool)
    ensures
        b == is_leap_year(y as int),
{
    let x: i64 = y as i64 + 4_000_000_000;
    proof {
        vstd::arithmetic::div_mod::lemma_mod_multiples_vanish(10_000_000, y as int, 400);
        vstd::arithmetic::div_mod::lemma_mod_multiples_vanish(40_000_000, y as int, 100);
        vstd::arithmetic::div_mod::lemma_mod_multiples_vanish(1_000_000_000, y as int, 4);
    }
    (x % 4 == 0 && x % 100 != 0) || x % 400 == 0
}

fn month_length(y: i32, m: u32) -> (n: u32)
    ensures
        n == days_in_month(y as int, m as int),
{
    if m == 2 {
        if is_leap(y) {
            29
        } else {
            28
        }
    } else if m == 4 || m == 6 || m == 9 || m == 11 {
        30
    } else {
        31
    }
}

/// Whether the fields name a moment that chrono can represent.
pub fn is_valid_datetime(d: &LocalDateTime) -> (b: bool)
    ensures
        b == valid_datetime(*d),
{
    -262143 <= d.year && d.year <= 262142 && 1 <= d.month && d.month <= 12 && 1 <= d.day
        && d.day <= month_length(d.year, d.month) && d.hour < 24 && d.minute < 60 && d.second < 60
}

/// The text shown for the moment `d` when it is now `now` (see [`date_text`]).
/// `now` must not be chrono's first representable day, which has no day before.
pub fn format_date_at(d: &LocalDateTime, now: &LocalDateTime, long: bool) -> (r: String)
    requires
        valid_datetime(*d),
        valid_datetime(*now),
        !(now.year == -262143 && now.month == 1 && now.day == 1),
    ensures
        r@ == date_text(*d, *now, long),
{
    proof {
        reveal_strlit("%b %d, %Y, %-l:%M:%S %p");
        reveal_strlit("%-l:%M %p");
        reveal_strlit("%b %d at %-l:%M %p");
        reveal_strlit("%b %d %Y at %-l:%M %p");
    }
    if long {
        return format_datetime(d, "%b %d, %Y, %-l:%M:%S %p");
    }
    let (py, pm, pd) = if now.day > 1 {
        (now.year, now.month, now.day - 1)
    } else if now.month > 1 {
        (now.year, now.month - 1, month_length(now.year, now.month - 1))
    } else {
        (now.year - 1, 12u32, 31u32)
    };
    if d.year == now.year && d.month == now.month && d.day == now.day {
        let mut out: Vec<char> = Vec::new();
        extend_str(&mut out, "Today at ");
        let t = format_datetime(d, "%-l:%M %p");
        extend_str(&mut out, t.as_str());
        string_from_chars(out.as_slice())
    } else if d.year == py && d.month == pm && d.day == pd {
        let mut out: Vec<char> = Vec::new();
        extend_str(&mut out, "Yesterday at ");
        let t = format_datetime(d, "%-l:%M %p");
        extend_str(&mut out, t.as_str());
        string_from_chars(out.as_slice())
    } else if d.year == now.year {
        format_datetime(d, "%b %d at %-l:%M %p")
    } else {
        format_datetime(d, "%b %d %Y at %-l:%M %p")
    }
}

/// The text shown for a clip created at UNIX time `timestamp`, in the
/// machine's time zone, when the clock reads `now_secs` (whole seconds since
/// the UNIX epoch; `None` when it reads before the epoch). The long form
/// does not look at the clock. `None` when chrono cannot represent the
/// moment, or, for the short form, the current one or today's date; given
/// for every moment well inside chrono's range (and, for the short form,
/// such a clock reading). The text is [`date_text`] of the local times of
/// `timestamp` and of the clock reading.
pub fn format_date_since(timestamp: u64, now_secs: Option<u64>, long: bool) -> (r: Option<String>)
    ensures
        !in_chrono_range(signed_secs(timestamp)) ==> r is None,
        !long && now_secs is None ==> r is None,
        long && well_inside_chrono_range(signed_secs(timestamp)) ==> r is Some,
        !long && well_inside_chrono_range(signed_secs(timestamp)) && (now_secs matches Some(c) && well_inside_chrono_range(signed_secs(c))) ==> r is Some,
        r matches Some(s) ==> exists|d: LocalDateTime, now: LocalDateTime| valid_datetime(d) && valid_datetime(now) && local_time_of(signed_secs(timestamp), d) && (long || (now_secs matches Some(c) && local_time_of(signed_secs(c), now))) && s@ == #[trigger] date_text(d, now, long),
{
    let d = match local_from_timestamp(timestamp) {
        Some(d) => d,
        None => return None,
    };
    if !is_valid_datetime(&d) {
        return None;
    }
    if long {
        proof {
            reveal_strlit("%b %d, %Y, %-l:%M:%S %p");
        }
        let s = format_datetime(&d, "%b %d, %Y, %-l:%M:%S %p");
        assert(s@ == date_text(d, d, long));
        return Some(s);
    }
    let c = match now_secs {
        Some(c) => c,
        None => return None,
    };
    let now = match local_from_timestamp(c) {
        Some(n) => n,
        None => return None,
    };
    proof {
        if well_inside_chrono_range(signed_secs(c)) {
            lemma_not_first_day(signed_secs(c), now);
        }
    }
    if !is_valid_datetime(&now) || (now.year == -262143 && now.month == 1 && now.day == 1) {
        return None;
    }
    let s = format_date_at(&d, &now, long);
    Some(s)
}

/// The text shown for a clip created at UNIX time `timestamp`, in the
/// machine's time zone and, for the short form, against the system clock
/// (see [`format_date_since`]). `None` when chrono cannot represent the
/// moment (or, for the short form, when the clock reads before the epoch or
/// out of chrono's range); the long form of a moment well inside chrono's
/// range is always given. The text is [`date_text`] of the local time of
/// `timestamp` and some valid current time.
pub fn format_date(timestamp: u64, long: bool) -> (r: Option<String>)
    ensures
        !in_chrono_range(signed_secs(timestamp)) ==> r is None,
        long && well_inside_chrono_range(signed_secs(timestamp)) ==> r is Some,
        r matches Some(s) ==> exists|d: LocalDateTime, now: LocalDateTime| valid_datetime(d) && valid_datetime(now) && local_time_of(signed_secs(timestamp), d) && s@ == #[trigger] date_text(d, now, long),
{
    if long {
        format_date_since(timestamp, None, true)
    } else {
        let clock = clock_secs();
        format_date_since(timestamp, clock, false)
    }
}

} // verus!
