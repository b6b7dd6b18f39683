//! Civil dates and ISO 8601 instants, on the proleptic Gregorian calendar.

use crate::number;
use crate::text;
use vstd::prelude::*;

verus! {

// ---------------------------------------------------------------------------
// The calendar
// ---------------------------------------------------------------------------

/// Whether a year has a 29th of February.
pub open spec fn is_leap(y: int) -> bool {
    y % 4 == 0 && (y % 100 != 0 || y % 400 == 0)
}

/// The number of days in a month.
pub open spec fn month_length(y: int, m: int) -> int {
    if m == 2 {
        if is_leap(y) {
            29
        } else {
            28
        }
    } else if m == 4 || m == 6 || m == 9 || m == 11 {
        30
    } else {
        31
    }
}

/// The number of days from 1 January of year 1 to 1 January of year `y`.
pub open spec fn days_before_year(y: int) -> int {
    365 * (y - 1) + (y - 1) / 4 - (y - 1) / 100 + (y - 1) / 400
}

/// The number of days in the months of year `y` before month `m`.
pub open spec fn days_before_month(y: int, m: int) -> int
    decreases m,
{
    if m <= 1 {
        0
    } else {
        days_before_month(y, m - 1) + month_length(y, m - 1)
    }
}

/// The number of days from 1 January 1970 to a date.
pub open spec fn day_number(y: int, m: int, d: int) -> int {
    days_before_year(y) - days_before_year(1970) + days_before_month(y, m) + d - 1
}

/// Whether a date exists.
pub open spec fn valid_date(y: int, m: int, d: int) -> bool {
    1 <= m <= 12 && 1 <= d <= month_length(y, m)
}

/// A year is as long as its months together.
pub proof fn year_is_its_months(y: int)
    ensures
        days_before_year(y + 1) == days_before_year(y) + days_before_month(y, 12) + 31,
        days_before_month(y, 12) == 334 + (if is_leap(y) {
            1int
        } else {
            0
        }),
{
    assert(days_before_month(y, 12) == 334 + (if is_leap(y) {
        1int
    } else {
        0
    })) by {
        reveal_with_fuel(days_before_month, 12);
    }
    leap_days(y);
}

/// The years that a leap day falls in, counted.
proof fn leap_days(y: int)
    ensures
        y / 4 - y / 100 + y / 400 == (y - 1) / 4 - (y - 1) / 100 + (y - 1) / 400 + (if is_leap(y) {
            1int
        } else {
            0
        }),
{
    step_of_division(y, 4);
    step_of_division(y, 100);
    step_of_division(y, 400);
    assert(y % 400 == 0 ==> y % 100 == 0);
    assert(y % 100 == 0 ==> y % 4 == 0);
}

/// A quotient grows by one exactly at the multiples of the divisor.
proof fn step_of_division(y: int, k: int)
    by (nonlinear_arith)
    requires
        k == 4 || k == 100 || k == 400,
    ensures
        y / k == (y - 1) / k + (if y % k == 0 {
            1int
        } else {
            0
        }),
{
}

proof fn months_in_closed_form(y: int, m: int)
    requires
        1 <= m <= 12,
    ensures
        m > 2 ==> days_before_month(y, m) == (153 * (m - 3) + 2) / 5 + 59 + (if is_leap(y) {
            1int
        } else {
            0
        }),
        m <= 2 ==> days_before_month(y, m) == (153 * (m + 9) + 2) / 5 - 306,
{
    reveal_with_fuel(days_before_month, 13);
}

/// A date counted from 1 March of year 0, by eras of 400 years.
proof fn counted_from_march(era: int, yoe: int, m: int, d: int)
    requires
        0 <= yoe <= 399,
        1 <= m <= 12,
    ensures
        ({
            let yy = era * 400 + yoe;
            let y = if m <= 2 {
                yy + 1
            } else {
                yy
            };
            let mp = if m > 2 {
                m - 3
            } else {
                m + 9
            };
            day_number(y, m, d) == era * 146_097 + (yoe * 365 + yoe / 4 - yoe / 100) + (153 * mp + 2)
                / 5 + d - 1 - 719_468
        }),
{
    let yy = era * 400 + yoe;
    let y = if m <= 2 {
        yy + 1
    } else {
        yy
    };
    months_in_closed_form(y, m);
    year_is_its_months(yy);
    assert(days_before_year(yy + 1) == era * 146_097 + (yoe * 365 + yoe / 4 - yoe / 100)) by {
        assert(yy / 4 == era * 100 + yoe / 4);
        assert(yy / 100 == era * 4 + yoe / 100);
        assert(yy / 400 == era);
    }
}

/// Days since the Unix epoch (1970-01-01) for a proleptic-Gregorian civil date.
/// Howard Hinnant's algorithm.
pub fn days_from_civil(y: i64, m: u32, d: u32) -> (r: i64)
    requires
        1 <= m <= 12,
        -20_000_000_000_000_000 <= y <= 20_000_000_000_000_000,
    ensures
        r == day_number(y as int, m as int, d as int),
{
    let yy: i64 = if m <= 2 {
        y - 1
    } else {
        y
    };
    let era: i64 = if yy >= 0 {
        yy / 400
    } else {
        -((399 - yy) / 400)
    };
    assert(era == yy as int / 400);
    let yoe: i64 = yy - era * 400;
    let mp: i64 = if m > 2 {
        m as i64 - 3
    } else {
        m as i64 + 9
    };
    let doy: i64 = (153 * mp + 2) / 5 + d as i64 - 1;
    let doe: i64 = yoe * 365 + yoe / 4 - yoe / 100 + doy;
    proof {
        counted_from_march(era as int, yoe as int, m as int, d as int);
    }
    era * 146_097 + doe - 719_468
}

/// The year of an era that a day of it falls in, on the calendar whose years
/// begin in March.
proof fn year_of_era(doe: int)
    requires
        0 <= doe <= 146_096,
    ensures
        ({
            let yoe = (doe - doe / 1460 + doe / 36524 - doe / 146096) / 365;
            let doy = doe - (365 * yoe + yoe / 4 - yoe / 100);
            &&& 0 <= yoe <= 399
            &&& 0 <= doy <= 365
            &&& doy == 365 ==> yoe % 4 == 3 && (yoe % 100 != 99 || yoe == 399)
        }),
{
}

/// The date of a day of an era, and the steps towards it.
proof fn date_of_era_day(era: int, doe: int)
    requires
        0 <= doe <= 146_096,
    ensures
        ({
            let yoe = (doe - doe / 1460 + doe / 36524 - doe / 146096) / 365;
            let doy = doe - (365 * yoe + yoe / 4 - yoe / 100);
            let mp = (5 * doy + 2) / 153;
            let d = doy - (153 * mp + 2) / 5 + 1;
            let m = if mp < 10 {
                mp + 3
            } else {
                mp - 9
            };
            let y = if m <= 2 {
                yoe + era * 400 + 1
            } else {
                yoe + era * 400
            };
            &&& 0 <= yoe <= 399
            &&& 0 <= doy <= 365
            &&& 0 <= mp <= 11
            &&& 1 <= d <= 31
            &&& valid_date(y, m, d)
            &&& day_number(y, m, d) == era * 146_097 + doe - 719_468
        }),
{
    year_of_era(doe);
    let yoe = (doe - doe / 1460 + doe / 36524 - doe / 146096) / 365;
    let doy = doe - (365 * yoe + yoe / 4 - yoe / 100);
    let mp = (5 * doy + 2) / 153;
    let d = doy - (153 * mp + 2) / 5 + 1;
    let m = if mp < 10 {
        mp + 3
    } else {
        mp - 9
    };
    let yy = yoe + era * 400;
    let y = if m <= 2 {
        yy + 1
    } else {
        yy
    };
    counted_from_march(era, yoe, m, d);
    if doy == 365 {
        assert(m == 2 && d == 29);
        assert(y % 4 == 0);
        assert(y % 100 != 0 || y % 400 == 0);
    }
}

/// Civil date `(year, month, day)` from days since the Unix epoch. Inverse of
/// [`days_from_civil`].
pub fn civil_from_days(z: i64) -> (r: (i64, u32, u32))
    requires
        z <= i64::MAX - 719_468,
    ensures
        valid_date(r.0 as int, r.1 as int, r.2 as int),
        day_number(r.0 as int, r.1 as int, r.2 as int) == z,
{
    let zz: i64 = z + 719_468;
    let era: i64 = if zz >= 0 {
        zz / 146_097
    } else {
        -((146_096 - zz) / 146_097)
    };
    assert(era == zz as int / 146_097);
    let doe: i64 = zz - era * 146_097;
    proof {
        date_of_era_day(era as int, doe as int);
    }
    let yoe: i64 = (doe - doe / 1460 + doe / 36524 - doe / 146096) / 365;
    let y: i64 = yoe + era * 400;
    let doy: i64 = doe - (365 * yoe + yoe / 4 - yoe / 100);
    let mp: i64 = (5 * doy + 2) / 153;
    let d: u32 = (doy - (153 * mp + 2) / 5 + 1) as u32;
    let m: u32 = if mp < 10 {
        (mp + 3) as u32
    } else {
        (mp - 9) as u32
    };
    let year: i64 = if m <= 2 {
        y + 1
    } else {
        y
    };
    (year, m, d)
}

/// A later year begins later, by at least 365 days for each year between.
pub proof fn years_ascend(a: int, b: int)
    requires
        a <= b,
    ensures
        days_before_year(a) + 365 * (b - a) <= days_before_year(b),
    decreases b - a,
{
    if a < b {
        years_ascend(a, b - 1);
        year_is_its_months(b - 1);
    }
}

proof fn months_ascend(y: int, a: int, b: int)
    requires
        1 <= a < b <= 12,
    ensures
        days_before_month(y, a) + month_length(y, a) <= days_before_month(y, b),
    decreases b - a,
{
    if a + 1 < b {
        months_ascend(y, a, b - 1);
    }
}

proof fn date_within_year(y: int, m: int, d: int)
    requires
        valid_date(y, m, d),
    ensures
        0 <= days_before_month(y, m) + d - 1 < days_before_year(y + 1) - days_before_year(y),
{
    year_is_its_months(y);
    months_in_closed_form(y, m);
}

/// No two dates fall on one day.
pub proof fn dates_are_distinct(a: (int, int, int), b: (int, int, int))
    requires
        valid_date(a.0, a.1, a.2),
        valid_date(b.0, b.1, b.2),
        day_number(a.0, a.1, a.2) == day_number(b.0, b.1, b.2),
    ensures
        a == b,
{
    date_within_year(a.0, a.1, a.2);
    date_within_year(b.0, b.1, b.2);
    if a.0 < b.0 {
        years_ascend(a.0 + 1, b.0);
    }
    if b.0 < a.0 {
        years_ascend(b.0 + 1, a.0);
    }
    if a.1 < b.1 {
        months_ascend(a.0, a.1, b.1);
    }
    if b.1 < a.1 {
        months_ascend(a.0, b.1, a.1);
    }
}

/// Every day is the day of a date.
pub proof fn every_day_has_a_date(z: int) -> (r: (int, int, int))
    ensures
        valid_date(r.0, r.1, r.2),
        day_number(r.0, r.1, r.2) == z,
{
    let zz = z + 719_468;
    let era = zz / 146_097;
    let doe = zz - era * 146_097;
    date_of_era_day(era, doe);
    let yoe = (doe - doe / 1460 + doe / 36524 - doe / 146096) / 365;
    let doy = doe - (365 * yoe + yoe / 4 - yoe / 100);
    let mp = (5 * doy + 2) / 153;
    let d = doy - (153 * mp + 2) / 5 + 1;
    let m = if mp < 10 {
        mp + 3
    } else {
        mp - 9
    };
    let year = if m <= 2 {
        yoe + era * 400 + 1
    } else {
        yoe + era * 400
    };
    (year, m, d)
}

/// The date of a day.
pub open spec fn date_of(z: int) -> (int, int, int) {
    choose|t: (int, int, int)|
        #![trigger valid_date(t.0, t.1, t.2)]
        valid_date(t.0, t.1, t.2) && day_number(t.0, t.1, t.2) == z
}

/// A date is the date of its own day.
pub proof fn date_of_its_day(y: int, m: int, d: int)
    requires
        valid_date(y, m, d),
    ensures
        date_of(day_number(y, m, d)) == (y, m, d),
{
    let z = day_number(y, m, d);
    let t = (y, m, d);
    assert(valid_date(t.0, t.1, t.2) && day_number(t.0, t.1, t.2) == z);
    dates_are_distinct(date_of(z), t);
}

/// The day of a day's date is that day.
pub proof fn day_of_its_date(z: int)
    ensures
        valid_date(date_of(z).0, date_of(z).1, date_of(z).2),
        day_number(date_of(z).0, date_of(z).1, date_of(z).2) == z,
{
    let t = every_day_has_a_date(z);
    assert(valid_date(t.0, t.1, t.2) && day_number(t.0, t.1, t.2) == z);
}

// ---------------------------------------------------------------------------
// Writing an instant
// ---------------------------------------------------------------------------

/// A number in two digits.
pub open spec fn two_digits(n: int) -> Seq<char> {
    number::zero_padded(number::decimal_text(n), 2)
}

/// A year in at least four characters, its sign counted.
pub open spec fn year_text(y: int) -> Seq<char> {
    if y < 0 {
        seq!['-'] + number::zero_padded(number::decimal_text(-y), 3)
    } else {
        number::zero_padded(number::decimal_text(y), 4)
    }
}

/// The part of an instant's text behind the year.
pub open spec fn rest_text(m: int, d: int, tod: int) -> Seq<char> {
    seq!['-'] + two_digits(m) + seq!['-'] + two_digits(d) + seq!['T'] + two_digits(tod / 3600) + seq![
        ':',
    ] + two_digits((tod % 3600) / 60) + seq![':'] + two_digits(tod % 60) + seq!['Z']
}

/// An instant, in seconds since the Unix epoch, as `YYYY-MM-DDTHH:MM:SSZ`.
pub open spec fn instant_text(epoch: int) -> Seq<char> {
    let date = date_of(epoch / 86_400);
    year_text(date.0) + rest_text(date.1, date.2, epoch % 86_400)
}

/// Format Unix epoch seconds as `YYYY-MM-DDTHH:MM:SSZ` (UTC).
pub fn format_epoch_secs(epoch: i64) -> (r: String)
    ensures
        r@ == instant_text(epoch as int),
{
    let days: i64 = if epoch >= 0 {
        epoch / 86_400
    } else {
        -((86_399 - (epoch + 86_400)) / 86_400) - 1
    };
    assert(days == epoch as int / 86_400);
    let tod: u64 = (epoch as i128 - days as i128 * 86_400) as u64;
    assert(tod == epoch as int % 86_400);
    let date: (i64, u32, u32) = civil_from_days(days);
    proof {
        date_of_its_day(date.0 as int, date.1 as int, date.2 as int);
        date_within_year(date.0 as int, date.1 as int, date.2 as int);
        if date.0 < 0 {
            years_ascend(date.0 + 1, 1970);
        }
    }
    let mut out: String = if date.0 < 0 {
        let digits = number::padded((-date.0) as u64, 3);
        let mut o = String::new();
        o.push('-');
        text::append_text(&mut o, digits.as_str());
        o
    } else {
        number::padded(date.0 as u64, 4)
    };
    assert(out@ =~= year_text(date.0 as int));
    out.push('-');
    text::append_text(&mut out, number::padded(date.1 as u64, 2).as_str());
    out.push('-');
    text::append_text(&mut out, number::padded(date.2 as u64, 2).as_str());
    out.push('T');
    text::append_text(&mut out, number::padded(tod / 3600, 2).as_str());
    out.push(':');
    text::append_text(&mut out, number::padded((tod % 3600) / 60, 2).as_str());
    out.push(':');
    text::append_text(&mut out, number::padded(tod % 60, 2).as_str());
    out.push('Z');
    assert(out@ =~= instant_text(epoch as int));
    out
}

// ---------------------------------------------------------------------------
// Reading an instant
// ---------------------------------------------------------------------------

/// The number in the columns `i` to `j` of a text.
pub open spec fn number_at(b: Seq<char>, i: int, j: int) -> Option<int> {
    number::signed_number(b.subrange(i, j))
}

/// `s` without its leading digits.
pub open spec fn after_digits(s: Seq<char>) -> Seq<char>
    decreases s.len(),
{
    if s.len() > 0 && number::is_digit(s[0]) {
        after_digits(s.drop_first())
    } else {
        s
    }
}

/// `s` without a leading decimal fraction.
pub open spec fn after_fraction(s: Seq<char>) -> Seq<char> {
    if s.len() > 0 && s[0] == '.' {
        after_digits(s.drop_first())
    } else {
        s
    }
}

/// The minutes of a zone offset `+HH:MM`, `+HHMM` or `+HH`.
pub open spec fn offset_minutes(s: Seq<char>) -> Option<int> {
    if s.len() >= 6 && s[3] == ':' {
        number_at(s, 4, 6)
    } else if s.len() >= 5 {
        number_at(s, 3, 5)
    } else {
        Some(0)
    }
}

/// The seconds that a zone suffix stands ahead of UTC.
pub open spec fn offset_of(s: Seq<char>) -> Option<int> {
    if s.len() == 0 || s == seq!['Z'] || s == seq!['z'] {
        Some(0)
    } else if (s[0] == '+' || s[0] == '-') && s.len() >= 3 {
        match (number_at(s, 1, 3), offset_minutes(s)) {
            (Some(h), Some(m)) => if s[0] == '+' {
                Some(h * 3600 + m * 60)
            } else {
                Some(-(h * 3600 + m * 60))
            },
            _ => None,
        }
    } else {
        None
    }
}

/// Whether the separators of `YYYY-MM-DDTHH:MM:SS` stand where they belong.
pub open spec fn separators(b: Seq<char>) -> bool {
    &&& b.len() >= 19
    &&& b[4] == '-'
    &&& b[7] == '-'
    &&& b[10] == 'T' || b[10] == 't' || b[10] == ' '
    &&& b[13] == ':'
    &&& b[16] == ':'
}

/// The day that the date columns name. Days 1 to 31 are taken for every month,
/// and those past its end run on into the next.
pub open spec fn day_at(b: Seq<char>) -> Option<int> {
    match (number_at(b, 0, 4), number_at(b, 5, 7), number_at(b, 8, 10)) {
        (Some(y), Some(m), Some(d)) => if 1 <= m <= 12 && 1 <= d <= 31 {
            Some(day_number(y, m, d))
        } else {
            None
        },
        _ => None,
    }
}

/// The second of the day that the time columns name.
pub open spec fn second_at(b: Seq<char>) -> Option<int> {
    match (number_at(b, 11, 13), number_at(b, 14, 16), number_at(b, 17, 19)) {
        (Some(h), Some(m), Some(s)) => Some(h * 3600 + m * 60 + s),
        _ => None,
    }
}

/// The instant that the columns of a timestamp name, in seconds since the Unix
/// epoch.
pub open spec fn instant_at(b: Seq<char>) -> Option<int> {
    if separators(b) {
        match (day_at(b), second_at(b), offset_of(after_fraction(b.skip(19)))) {
            (Some(day), Some(second), Some(offset)) => Some(day * 86_400 + second - offset),
            _ => None,
        }
    } else {
        None
    }
}

/// The instant that a timestamp names. Its columns are bytes.
pub open spec fn instant_of(ts: Seq<char>) -> Option<int> {
    instant_at(text::byte_chars(ts))
}

/// Whether an optional integer holds an optional value.
pub open spec fn holds(r: Option<i64>, v: Option<int>) -> bool {
    match r {
        Some(n) => v == Some(n as int),
        None => v is None,
    }
}

proof fn short_numbers(s: Seq<char>)
    requires
        s.len() <= 4,
    ensures
        number::signed_number(s) matches Some(v) ==> -9999 <= v <= 9999,
{
    reveal_with_fuel(number::digits_value, 6);
    let digits = s.skip(1);
    if number::all_digits(digits) {
        number::digits_grow(digits, 0);
    }
    if number::all_digits(s) {
        number::digits_grow(s, 0);
    }
}

/// Reads the number in the columns `i` to `j`.
fn read_number(b: &Vec<char>, i: usize, j: usize) -> (r: Option<i64>)
    requires
        i <= j <= b@.len(),
        j - i <= 4,
    ensures
        holds(r, number_at(b@, i as int, j as int)),
        r matches Some(v) ==> -9999 <= v <= 9999,
{
    let part = text::slice_of(b, i, j);
    proof {
        short_numbers(part@);
    }
    number::parse_i64(&part)
}

/// Reads what follows the seconds: a fraction, then a zone.
fn read_offset(b: &Vec<char>) -> (r: Option<i64>)
    requires
        b@.len() >= 19,
    ensures
        holds(r, offset_of(after_fraction(b@.skip(19)))),
        r matches Some(v) ==> -40_000_000 <= v <= 40_000_000,
{
    let n: usize = b.len();
    let mut from: usize = 19;
    if from < n && b[from] == '.' {
        from = 20;
        assert(b@.skip(19).drop_first() =~= b@.skip(20));
        while from < n && '0' <= b[from] && b[from] <= '9'
            invariant
                n == b@.len(),
                20 <= from <= n,
                after_digits(b@.skip(from as int)) == after_digits(b@.skip(20)),
            decreases n - from,
        {
            assert(b@.skip(from as int).drop_first() =~= b@.skip(from + 1));
            from = from + 1;
        }
    }
    let rest = text::slice_of(b, from, n);
    assert(rest@ =~= b@.skip(from as int));
    assert(rest@ =~= after_fraction(b@.skip(19)));
    let m: usize = rest.len();
    if m == 0 {
        return Some(0);
    }
    let first: char = rest[0];
    if m == 1 && (first == 'Z' || first == 'z') {
        assert(rest@ =~= seq![first]);
        return Some(0);
    }
    proof {
        assert(rest@ == seq!['Z'] ==> m == 1 && first == 'Z');
        assert(rest@ == seq!['z'] ==> m == 1 && first == 'z');
    }
    if m < 3 || !(first == '+' || first == '-') {
        return None;
    }
    let hours: Option<i64> = read_number(&rest, 1, 3);
    let minutes: Option<i64> = if m >= 6 && rest[3] == ':' {
        read_number(&rest, 4, 6)
    } else if m >= 5 {
        read_number(&rest, 3, 5)
    } else {
        Some(0)
    };
    match (hours, minutes) {
        (Some(h), Some(mi)) => {
            let size: i64 = h * 3600 + mi * 60;
            if first == '+' {
                Some(size)
            } else {
                Some(-size)
            }
        },
        _ => None,
    }
}

/// Parse an ISO 8601 / RFC 3339 timestamp into Unix epoch seconds (UTC).
/// Expects `YYYY-MM-DDTHH:MM:SS` with an optional fractional part and an
/// optional `Z` or offset suffix. Gives nothing for anything it cannot
/// interpret.
pub fn parse_epoch_secs(ts: &str) -> (r: Option<i64>)
    ensures
        holds(r, instant_of(ts@)),
        r matches Some(v) ==> -1_000_000_000_000 <= v <= 1_000_000_000_000,
{
    let b = text::byte_chars_of(ts);
    let n: usize = b.len();
    if n < 19 {
        return None;
    }
    if b[4] != '-' || b[7] != '-' || !(b[10] == 'T' || b[10] == 't' || b[10] == ' ') || b[13] != ':'
        || b[16] != ':' {
        return None;
    }
    match (read_number(&b, 0, 4), read_number(&b, 5, 7), read_number(&b, 8, 10)) {
        (Some(year), Some(month), Some(day)) => {
            if !(1 <= month && month <= 12 && 1 <= day && day <= 31) {
                return None;
            }
            match (
                read_number(&b, 11, 13),
                read_number(&b, 14, 16),
                read_number(&b, 17, 19),
                read_offset(&b),
            ) {
                (Some(hour), Some(min), Some(sec), Some(offset)) => {
                    let days: i64 = days_from_civil(year, month as u32, day as u32);
                    proof {
                        days_in_range(year as int, month as int, day as int);
                    }
                    Some(days * 86_400 + hour * 3600 + min * 60 + sec - offset)
                },
                _ => None,
            }
        },
        _ => None,
    }
}

proof fn days_in_range(y: int, m: int, d: int)
    requires
        -9999 <= y <= 9999,
        1 <= m <= 12,
        1 <= d <= 31,
    ensures
        -6_000_000 <= day_number(y, m, d) <= 6_000_000,
{
    months_in_closed_form(y, m);
}

// ---------------------------------------------------------------------------
// Laws
// ---------------------------------------------------------------------------

/// `days_from_civil` and `civil_from_days` are inverse to each other: a date's
/// day has that date, and a day's date has that day.
pub proof fn dates_and_days_are_inverse(y: int, m: int, d: int, z: int)
    requires
        valid_date(y, m, d),
    ensures
        date_of(day_number(y, m, d)) == (y, m, d),
        day_number(date_of(z).0, date_of(z).1, date_of(z).2) == z,
{
    date_of_its_day(y, m, d);
    day_of_its_date(z);
}

proof fn two_digits_read_back(n: int)
    requires
        0 <= n <= 99,
    ensures
        two_digits(n).len() == 2,
        number::signed_number(two_digits(n)) == Some(n),
        number::all_digits(two_digits(n)),
{
    number::decimal_reads_back(n);
    number::zero_padded_reads_back(number::decimal_text(n), 2);
    assert(number::decimal_text(n).len() <= 2) by {
        reveal_with_fuel(number::decimal_text, 3);
    }
    assert(number::is_digit(two_digits(n)[0]));
}

/// A year's text has four characters exactly for the years -999 to 9999, and
/// then reads back as the year.
proof fn year_text_reads_back(y: int)
    ensures
        -999 <= y <= 9999 ==> year_text(y).len() == 4 && number::signed_number(year_text(y))
            == Some(y),
        !(-999 <= y <= 9999) ==> year_text(y).len() > 4 && number::is_digit(year_text(y)[4]),
{
    let a = if y < 0 {
        -y
    } else {
        y
    };
    let w = if y < 0 {
        3int
    } else {
        4
    };
    let t = number::decimal_text(a);
    let p = number::zero_padded(t, w);
    number::decimal_reads_back(a);
    number::zero_padded_reads_back(t, w);
    decimal_length(a);
    if y < 0 {
        assert(year_text(y).skip(1) =~= p);
        if p.len() > 3 {
            assert(year_text(y)[4] == p[3]);
            assert(number::is_digit(p[3]));
        }
    } else {
        assert(number::is_digit(p[0]));
        if p.len() > 4 {
            assert(number::is_digit(p[4]));
        }
    }
}

proof fn decimal_length(n: int)
    requires
        n >= 0,
    ensures
        number::decimal_text(n).len() <= 3 <==> n <= 999,
        number::decimal_text(n).len() <= 4 <==> n <= 9999,
{
    reveal_with_fuel(number::decimal_text, 6);
    if n > 9999 {
        number::decimal_reads_back(n / 10000);
    }
}

/// The part of an instant's text behind the year has sixteen characters, and its
/// columns read back.
proof fn rest_reads_back(m: int, d: int, tod: int, y: Seq<char>)
    requires
        0 <= m <= 99,
        0 <= d <= 99,
        0 <= tod < 86_400,
        y.len() == 4,
    ensures
        ({
            let b = y + rest_text(m, d, tod);
            &&& separators(b)
            &&& b.subrange(0, 4) == y
            &&& number_at(b, 5, 7) == Some(m)
            &&& number_at(b, 8, 10) == Some(d)
            &&& second_at(b) == Some(tod)
            &&& b.skip(19) == seq!['Z']
        }),
{
    let b = y + rest_text(m, d, tod);
    let h = tod / 3600;
    let mi = (tod % 3600) / 60;
    let s = tod % 60;
    two_digits_read_back(m);
    two_digits_read_back(d);
    two_digits_read_back(h);
    two_digits_read_back(mi);
    two_digits_read_back(s);
    assert(b.subrange(0, 4) =~= y);
    assert(b.subrange(5, 7) =~= two_digits(m));
    assert(b.subrange(8, 10) =~= two_digits(d));
    assert(b.subrange(11, 13) =~= two_digits(h));
    assert(b.subrange(14, 16) =~= two_digits(mi));
    assert(b.subrange(17, 19) =~= two_digits(s));
    assert(b.skip(19) =~= seq!['Z']);
}

/// An instant's text is ASCII.
proof fn instant_text_is_ascii(epoch: int)
    ensures
        vstd::utf8::is_ascii_chars(instant_text(epoch)),
{
    let date = date_of(epoch / 86_400);
    day_of_its_date(epoch / 86_400);
    let tod = epoch % 86_400;
    two_digits_read_back(date.1);
    two_digits_read_back(date.2);
    two_digits_read_back(tod / 3600);
    two_digits_read_back((tod % 3600) / 60);
    two_digits_read_back(tod % 60);
    let a = if date.0 < 0 {
        -date.0
    } else {
        date.0
    };
    number::decimal_reads_back(a);
    number::zero_padded_reads_back(number::decimal_text(a), 3);
    number::zero_padded_reads_back(number::decimal_text(a), 4);
    let t = instant_text(epoch);
    assert(vstd::utf8::is_ascii_chars(t));
}

/// Formatting an instant and parsing the text gives the instant back, for the
/// years whose text has four characters; any other text does not parse.
pub proof fn formatted_instants_parse(epoch: int)
    ensures
        instant_of(instant_text(epoch)) == if -999 <= date_of(epoch / 86_400).0 <= 9999 {
            Some(epoch)
        } else {
            None
        },
{
    instant_text_is_ascii(epoch);
    text::ascii_byte_chars(instant_text(epoch));
    let b = instant_text(epoch);
    let date = date_of(epoch / 86_400);
    let tod = epoch % 86_400;
    day_of_its_date(epoch / 86_400);
    year_text_reads_back(date.0);
    if -999 <= date.0 <= 9999 {
        rest_reads_back(date.1, date.2, tod, year_text(date.0));
        assert(after_fraction(b.skip(19)) == seq!['Z']);
        assert(instant_at(b) == Some(epoch));
    } else {
        assert(b[4] == year_text(date.0)[4]);
        assert(b[4] != '-');
    }
}

proof fn year_text_is_injective(a: int, b: int)
    requires
        year_text(a) == year_text(b),
    ensures
        a == b,
{
    let p = if a < 0 {
        -a
    } else {
        a
    };
    let q = if b < 0 {
        -b
    } else {
        b
    };
    number::decimal_reads_back(p);
    number::decimal_reads_back(q);
    number::zero_padded_reads_back(number::decimal_text(p), 3);
    number::zero_padded_reads_back(number::decimal_text(p), 4);
    number::zero_padded_reads_back(number::decimal_text(q), 3);
    number::zero_padded_reads_back(number::decimal_text(q), 4);
    if a >= 0 {
        assert(number::is_digit(year_text(a)[0]));
    } else {
        assert(year_text(a).skip(1) =~= number::zero_padded(number::decimal_text(p), 3));
    }
    if b >= 0 {
        assert(number::is_digit(year_text(b)[0]));
    } else {
        assert(year_text(b).skip(1) =~= number::zero_padded(number::decimal_text(q), 3));
    }
}

/// Distinct instants have distinct texts.
pub proof fn instant_texts_are_distinct(a: int, b: int)
    requires
        instant_text(a) == instant_text(b),
    ensures
        a == b,
{
    let p = date_of(a / 86_400);
    let q = date_of(b / 86_400);
    day_of_its_date(a / 86_400);
    day_of_its_date(b / 86_400);
    let four = seq!['0', '0', '0', '0'];
    let ra = rest_text(p.1, p.2, a % 86_400);
    let rb = rest_text(q.1, q.2, b % 86_400);
    rest_reads_back(p.1, p.2, a % 86_400, four);
    rest_reads_back(q.1, q.2, b % 86_400, four);
    assert((four + ra).len() == 20 && (four + rb).len() == 20);
    let n = year_text(p.0).len();
    assert(instant_text(a).len() == n + 16);
    assert(instant_text(b).len() == year_text(q.0).len() + 16);
    assert(instant_text(a).take(n as int) =~= year_text(p.0));
    assert(instant_text(b).take(n as int) =~= year_text(q.0));
    assert(instant_text(a).skip(n as int) =~= ra);
    assert(instant_text(b).skip(n as int) =~= rb);
    year_text_is_injective(p.0, q.0);
}

/// Days are counted one by one: within a month each date is a day after the one
/// before, a month begins on the day after the last of the month before, and a
/// year on the day after 31 December; the count begins at 1 January 1970.
pub proof fn days_follow_one_another(y: int, m: int, d: int)
    requires
        1 <= m <= 12,
    ensures
        day_number(1970, 1, 1) == 0,
        day_number(y, m, d + 1) == day_number(y, m, d) + 1,
        m < 12 ==> day_number(y, m + 1, 1) == day_number(y, m, month_length(y, m)) + 1,
        day_number(y + 1, 1, 1) == day_number(y, 12, 31) + 1,
        month_length(y, 12) == 31,
{
    year_is_its_months(y);
    assert(days_before_month(y, m + 1) == days_before_month(y, m) + month_length(y, m));
}

/// The calendar is the Gregorian one: the months have their lengths, February one
/// day more every fourth year but for the centuries that 400 does not divide, and
/// 400 years are as long as any other 400.
pub proof fn the_calendar_is_gregorian(y: int, m: int)
    requires
        1 <= m <= 12,
    ensures
        m == 1 || m == 3 || m == 5 || m == 7 || m == 8 || m == 10 || m == 12 <==> month_length(y, m)
            == 31,
        m == 4 || m == 6 || m == 9 || m == 11 <==> month_length(y, m) == 30,
        m == 2 ==> month_length(y, m) == 28 + days_before_year(y + 1) - days_before_year(y) - 365,
        days_before_year(y + 1) - days_before_year(y) == 366 <==> (y % 4 == 0 && y % 100 != 0) || y
            % 400 == 0,
        days_before_year(y + 1) - days_before_year(y) == 365 || days_before_year(y + 1)
            - days_before_year(y) == 366,
        days_before_year(y + 400) == days_before_year(y) + 146_097,
{
    year_is_its_months(y);
    leap_days(y);
    assert(days_before_year(y + 400) == days_before_year(y) + 146_097) by (nonlinear_arith)
        requires
            days_before_year(y + 400) == 365 * (y + 399) + (y + 399) / 4 - (y + 399) / 100 + (y
                + 399) / 400,
            days_before_year(y) == 365 * (y - 1) + (y - 1) / 4 - (y - 1) / 100 + (y - 1) / 400,
    ;
}

/// Dates are ordered as their days are: an earlier year comes first whatever the
/// month and day, then an earlier month, then an earlier day.
pub proof fn dates_are_in_order(a: (int, int, int), b: (int, int, int))
    requires
        valid_date(a.0, a.1, a.2),
        valid_date(b.0, b.1, b.2),
    ensures
        day_number(a.0, a.1, a.2) < day_number(b.0, b.1, b.2) <==> a.0 < b.0 || (a.0 == b.0 && (a.1
            < b.1 || (a.1 == b.1 && a.2 < b.2))),
{
    date_within_year(a.0, a.1, a.2);
    date_within_year(b.0, b.1, b.2);
    if a.0 < b.0 {
        years_ascend(a.0 + 1, b.0);
    }
    if b.0 < a.0 {
        years_ascend(b.0 + 1, a.0);
    }
    if a.1 < b.1 {
        months_ascend(a.0, a.1, b.1);
    }
    if b.1 < a.1 {
        months_ascend(a.0, b.1, a.1);
    }
}

/// Without a zone, and with `Z` in either case, the columns of a timestamp are UTC.
pub proof fn columns_are_utc(b: Seq<char>, t: int, c: char)
    requires
        b.len() == 19,
        instant_at(b) == Some(t),
        c == 'Z' || c == 'z',
    ensures
        instant_at(b + seq![c]) == Some(t),
{
    assert(b.skip(19) =~= Seq::<char>::empty());
    same_columns(b, seq![c]);
    assert(after_fraction(seq![c]) == seq![c]);
}

/// A timestamp may be written with a zone: the same columns with an offset of
/// hours and minutes ahead of UTC name an instant earlier by that much, behind UTC
/// one later, whether the offset is written `+HH:MM`, `+HHMM` or, for whole hours,
/// `+HH`.
#[verifier::rlimit(40)]
pub proof fn offsets_shift_the_instant(b: Seq<char>, t: int, sign: char, h: int, m: int)
    requires
        b.len() == 19,
        instant_at(b) == Some(t),
        sign == '+' || sign == '-',
        0 <= h <= 99,
        0 <= m <= 99,
    ensures
        ({
            let hours = seq![sign] + two_digits(h);
            let ahead = h * 3600 + m * 60;
            let shifted = Some(
                if sign == '+' {
                    t - ahead
                } else {
                    t + ahead
                },
            );
            &&& instant_at(b + (hours + seq![':'] + two_digits(m))) == shifted
            &&& instant_at(b + (hours + two_digits(m))) == shifted
            &&& m == 0 ==> instant_at(b + hours) == shifted
        }),
{
    let hours = seq![sign] + two_digits(h);
    let offset = if sign == '+' {
        h * 3600 + m * 60
    } else {
        -(h * 3600 + m * 60)
    };
    offsets_are_read(sign, h, m, offset);
    shifted_columns(b, hours + seq![':'] + two_digits(m), t, offset);
    shifted_columns(b, hours + two_digits(m), t, offset);
    if m == 0 {
        shifted_columns(b, hours, t, offset);
    }
}

#[verifier::rlimit(40)]
proof fn offsets_are_read(sign: char, h: int, m: int, offset: int)
    requires
        sign == '+' || sign == '-',
        0 <= h <= 99,
        0 <= m <= 99,
        sign == '+' ==> offset == h * 3600 + m * 60,
        sign == '-' ==> offset == -(h * 3600 + m * 60),
    ensures
        ({
            let hours = seq![sign] + two_digits(h);
            &&& offset_of(hours + seq![':'] + two_digits(m)) == Some(offset)
            &&& offset_of(hours + two_digits(m)) == Some(offset)
            &&& m == 0 ==> offset_of(hours) == Some(offset)
        }),
{
    let (hh, mm) = (two_digits(h), two_digits(m));
    let hours = seq![sign] + hh;
    let (a, d) = (hours + seq![':'] + mm, hours + mm);
    two_digits_read_back(h);
    two_digits_read_back(m);
    assert(number::is_digit(mm[0]));
    assert(a.subrange(1, 3) =~= hh && a.subrange(4, 6) =~= mm);
    assert(d.subrange(1, 3) =~= hh && d.subrange(3, 5) =~= mm);
    assert(hours.subrange(1, 3) =~= hh);
    assert(a[0] == sign && d[0] == sign && hours[0] == sign);
    assert(a[3] == ':' && d[3] != ':');
}

proof fn shifted_columns(b: Seq<char>, zone: Seq<char>, t: int, offset: int)
    requires
        b.len() == 19,
        instant_at(b) == Some(t),
        zone.len() > 0,
        zone[0] == '+' || zone[0] == '-',
        offset_of(zone) == Some(offset),
    ensures
        instant_at(b + zone) == Some(t - offset),
{
    assert(b.skip(19) =~= Seq::<char>::empty());
    same_columns(b, zone);
}

proof fn same_columns(b: Seq<char>, rest: Seq<char>)
    requires
        b.len() == 19,
    ensures
        separators(b + rest) == separators(b),
        day_at(b + rest) == day_at(b),
        second_at(b + rest) == second_at(b),
        (b + rest).skip(19) == rest,
{
    let w = b + rest;
    assert(w.subrange(0, 4) =~= b.subrange(0, 4));
    assert(w.subrange(5, 7) =~= b.subrange(5, 7));
    assert(w.subrange(8, 10) =~= b.subrange(8, 10));
    assert(w.subrange(11, 13) =~= b.subrange(11, 13));
    assert(w.subrange(14, 16) =~= b.subrange(14, 16));
    assert(w.subrange(17, 19) =~= b.subrange(17, 19));
    assert(w.skip(19) =~= rest);
}

/// A decimal fraction of the second does not matter, however many digits it has.
pub proof fn fractions_do_not_matter(b: Seq<char>, digits: Seq<char>, zone: Seq<char>)
    requires
        b.len() == 19,
        number::all_digits(digits),
        zone.len() > 0 ==> !number::is_digit(zone[0]) && zone[0] != '.',
    ensures
        instant_at(b + (seq!['.'] + digits + zone)) == instant_at(b + zone),
{
    same_columns(b, zone);
    same_columns(b, seq!['.'] + digits + zone);
    assert((seq!['.'] + digits + zone).drop_first() =~= digits + zone);
    digits_are_skipped(digits, zone);
}

proof fn digits_are_skipped(digits: Seq<char>, rest: Seq<char>)
    requires
        number::all_digits(digits),
        rest.len() > 0 ==> !number::is_digit(rest[0]),
    ensures
        after_digits(digits + rest) == rest,
    decreases digits.len(),
{
    if digits.len() == 0 {
        assert(digits + rest =~= rest);
    } else {
        assert(number::is_digit(digits[0]));
        assert((digits + rest).drop_first() =~= digits.drop_first() + rest);
        assert(number::all_digits(digits.drop_first()));
        digits_are_skipped(digits.drop_first(), rest);
    }
}

/// The columns of a timestamp are read as the calendar means them: year, month and
/// day, then hour, minute and second, with a `T` or a space between the two. Months
/// past 12 and days past 31 name nothing.
pub proof fn columns_name_the_instant(y: int, m: int, d: int, h: int, mi: int, s: int, c: char)
    requires
        0 <= y <= 9999,
        0 <= m <= 99,
        0 <= d <= 99,
        0 <= h <= 99,
        0 <= mi <= 99,
        0 <= s <= 99,
    ensures
        instant_at(
            year_text(y) + seq!['-'] + two_digits(m) + seq!['-'] + two_digits(d) + seq![c]
                + two_digits(h) + seq![':'] + two_digits(mi) + seq![':'] + two_digits(s),
        ) == if (c == 'T' || c == 't' || c == ' ') && 1 <= m <= 12 && 1 <= d <= 31 {
            Some(day_number(y, m, d) * 86_400 + h * 3600 + mi * 60 + s)
        } else {
            None
        },
{
    let yy = year_text(y);
    let b = yy + seq!['-'] + two_digits(m) + seq!['-'] + two_digits(d) + seq![c] + two_digits(h)
        + seq![':'] + two_digits(mi) + seq![':'] + two_digits(s);
    year_text_reads_back(y);
    two_digits_read_back(m);
    two_digits_read_back(d);
    two_digits_read_back(h);
    two_digits_read_back(mi);
    two_digits_read_back(s);
    assert(b.subrange(0, 4) =~= yy);
    assert(b.subrange(5, 7) =~= two_digits(m));
    assert(b.subrange(8, 10) =~= two_digits(d));
    assert(b.subrange(11, 13) =~= two_digits(h));
    assert(b.subrange(14, 16) =~= two_digits(mi));
    assert(b.subrange(17, 19) =~= two_digits(s));
    assert(b[10] == c);
    assert(b.skip(19) =~= Seq::<char>::empty());
}

/// An instant is written in UTC, in the columns of its date and its time of day.
pub proof fn instants_are_written_in_columns(y: int, m: int, d: int, h: int, mi: int, s: int)
    requires
        0 <= y <= 9999,
        valid_date(y, m, d),
        0 <= h <= 23,
        0 <= mi <= 59,
        0 <= s <= 59,
    ensures
        instant_text(day_number(y, m, d) * 86_400 + h * 3600 + mi * 60 + s) == year_text(y)
            + seq!['-'] + two_digits(m) + seq!['-'] + two_digits(d) + seq!['T'] + two_digits(h)
            + seq![':'] + two_digits(mi) + seq![':'] + two_digits(s) + seq!['Z'],
{
    let epoch = day_number(y, m, d) * 86_400 + h * 3600 + mi * 60 + s;
    let tod = h * 3600 + mi * 60 + s;
    assert(epoch / 86_400 == day_number(y, m, d) && epoch % 86_400 == tod);
    date_of_its_day(y, m, d);
    assert(tod / 3600 == h && (tod % 3600) / 60 == mi && tod % 60 == s);
    assert(instant_text(epoch) =~= year_text(y) + seq!['-'] + two_digits(m) + seq!['-']
        + two_digits(d) + seq!['T'] + two_digits(h) + seq![':'] + two_digits(mi) + seq![':']
        + two_digits(s) + seq!['Z']);
}

/// Of a timestamp in ASCII, the columns are its characters.
pub proof fn ascii_columns_are_characters(ts: Seq<char>)
    requires
        vstd::utf8::is_ascii_chars(ts),
    ensures
        instant_of(ts) == instant_at(ts),
{
    text::ascii_byte_chars(ts);
}

/// A timestamp names no instant where it is too short, where a separator is another
/// character, where a column is no number, and where something else than a
/// fraction and a zone stands behind the columns.
pub proof fn other_timestamps_name_no_instant(b: Seq<char>, rest: Seq<char>)
    ensures
        b.len() < 19 ==> instant_at(b) is None,
        b.len() >= 19 && (b[4] != '-' || b[7] != '-' || b[13] != ':' || b[16] != ':' || (b[10] != 'T'
            && b[10] != 't' && b[10] != ' ')) ==> instant_at(b) is None,
        number::signed_number(b.subrange(0, 4)) is None ==> instant_at(b) is None,
        number::signed_number(b.subrange(5, 7)) is None ==> instant_at(b) is None,
        number::signed_number(b.subrange(8, 10)) is None ==> instant_at(b) is None,
        number::signed_number(b.subrange(11, 13)) is None ==> instant_at(b) is None,
        number::signed_number(b.subrange(14, 16)) is None ==> instant_at(b) is None,
        number::signed_number(b.subrange(17, 19)) is None ==> instant_at(b) is None,
        b.len() == 19 && rest.len() > 0 && rest[0] != '.' && rest[0] != '+' && rest[0] != '-' && rest
            != seq!['Z'] && rest != seq!['z'] ==> instant_at(b + rest) is None,
        b.len() == 19 && 0 < rest.len() < 3 && (rest[0] == '+' || rest[0] == '-') ==> instant_at(
            b + rest,
        ) is None,
{
    if b.len() == 19 {
        same_columns(b, rest);
    }
}

} // verus!
