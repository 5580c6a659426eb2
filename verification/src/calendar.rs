//! Proleptic Gregorian calendar arithmetic for the dates that stamp the
//! blocks appended to `.gitignore` files.

use vstd::prelude::*;
use crate::text::push_char;

verus! {

/// Year of the era (counted from March) and day of that year for a day of
/// a 400-year era: the year lies in the era and the day in the year.
proof fn lemma_year_of_era(doe: u32)
    by (bit_vector)
    requires
        doe <= 146096,
    ensures
        ({
            let yoe = (doe - doe / 1460 + doe / 36524 - doe / 146096) / 365;
            let start = 365 * yoe + yoe / 4 - yoe / 100;
            &&& yoe <= 399
            &&& start <= doe
            &&& (doe - start <= 364 || (doe - start == 365 && (yoe + 1) % 4 == 0 && ((yoe + 1)
                % 100 != 0 || yoe == 399)))
        }),
{
}

/// Month of the year (counted from March) and day of that month for a day
/// of such a year: the day falls before the start of the next month.
proof fn lemma_month_of_year(doy: u32)
    by (bit_vector)
    requires
        doy <= 365,
    ensures
        ({
            let mp = (5 * doy + 2) / 153;
            &&& mp <= 11
            &&& (153 * mp + 2) / 5 <= doy
            &&& doy < (153 * mp + 155) / 5
        }),
{
}

/// Whether `year` has a 29th of February.
pub open spec fn is_leap_year(year: int) -> bool {
    year % 4 == 0 && (year % 100 != 0 || year % 400 == 0)
}

/// Number of days of `month` (1 to 12) in `year`.
pub open spec fn month_length(year: int, month: int) -> int {
    if month == 2 {
        if is_leap_year(year) {
            29
        } else {
            28
        }
    } else if month == 4 || month == 6 || month == 9 || month == 11 {
        30
    } else {
        31
    }
}

/// Days from 1970-01-01 to the given date of the proleptic Gregorian
/// calendar, counting years from March so that the leap day ends a year.
pub open spec fn days_from_civil(year: int, month: int, day: int) -> int {
    let y = if month <= 2 { year - 1 } else { year };
    let era = y / 400;
    let yoe = y - era * 400;
    let mp = if month > 2 { month - 3 } else { month + 9 };
    let doy = (153 * mp + 2) / 5 + day - 1;
    let doe = yoe * 365 + yoe / 4 - yoe / 100 + doy;
    era * 146097 + doe - 719468
}

/// Whether `(year, month, day)` names a day of the calendar.
pub open spec fn valid_date(year: int, month: int, day: int) -> bool {
    1 <= month <= 12 && 1 <= day <= month_length(year, month)
}

/// The day that follows `(year, month, day)`.
pub open spec fn next_day(year: int, month: int, day: int) -> (int, int, int) {
    if day < month_length(year, month) {
        (year, month, day + 1)
    } else if month < 12 {
        (year, month + 1, 1)
    } else {
        (year + 1, 1, 1)
    }
}

/// Year-length arithmetic within an era: the year of the era that starts
/// after year `k` is 366 days long exactly when it ends on a leap day.
proof fn lemma_year_start_step(k: u32)
    by (bit_vector)
    requires
        k <= 398,
    ensures
        (365 * (k + 1) + (k + 1) / 4 - (k + 1) / 100) - (365 * k + k / 4 - k / 100) == 365 + (if (k
            + 1) % 4 == 0 && (k + 1) % 100 != 0 {
            1int
        } else {
            0int
        }),
{
}

/// 1970-01-01 is day zero of the count.
pub proof fn lemma_epoch()
    ensures
        days_from_civil(1970, 1, 1) == 0,
        valid_date(1970, 1, 1),
{
}

/// The last day of February is followed by the first of March.
#[verifier::spinoff_prover]
proof fn lemma_end_of_february(year: int)
    ensures
        days_from_civil(year, 3, 1) == days_from_civil(year, 2, month_length(year, 2)) + 1,
{
    let yo = year - 1;
    let era = yo / 400;
    let k = yo - era * 400;
    if k < 399 {
        lemma_year_start_step(k as u32);
        assert(year / 400 == era);
        assert(year % 4 == (k + 1) % 4);
        assert(year % 100 == (k + 1) % 100);
        assert(year % 400 == k + 1);
    } else {
        assert(year / 400 == era + 1);
        assert(year % 400 == 0);
    }
}

/// The last day of a month other than February is followed by the first
/// of the next month.
#[verifier::spinoff_prover]
proof fn lemma_end_of_month(year: int, month: int)
    requires
        1 <= month <= 12,
        month != 2,
    ensures
        days_from_civil(next_day(year, month, month_length(year, month)).0, next_day(year, month, month_length(year, month)).1, next_day(year, month, month_length(year, month)).2)
            == days_from_civil(year, month, month_length(year, month)) + 1,
{
}

/// Consecutive days of the calendar are consecutive in the day count: the
/// count steps by one from each valid date to the next, which is valid too.
pub proof fn lemma_next_day(year: int, month: int, day: int)
    requires
        valid_date(year, month, day),
    ensures
        valid_date(next_day(year, month, day).0, next_day(year, month, day).1, next_day(year, month, day).2),
        days_from_civil(next_day(year, month, day).0, next_day(year, month, day).1, next_day(year, month, day).2)
            == days_from_civil(year, month, day) + 1,
{
    if day < month_length(year, month) {
    } else if month != 2 {
        lemma_end_of_month(year, month);
    } else {
        lemma_end_of_february(year);
    }
}

/// Within an era, a day determines its year of the era and its day of that
/// year, given that only a year that ends on a leap day has a day 365.
proof fn lemma_year_of_era_unique(y1: u32, d1: u32, y2: u32, d2: u32)
    by (bit_vector)
    requires
        y1 <= 399,
        y2 <= 399,
        d1 <= 365,
        d2 <= 365,
        d1 <= 364 || (y1 % 4 == 3 && (y1 % 100 != 99 || y1 == 399)),
        d2 <= 364 || (y2 % 4 == 3 && (y2 % 100 != 99 || y2 == 399)),
        (365 * y1 + y1 / 4 - y1 / 100 + d1) as u32 == (365 * y2 + y2 / 4 - y2 / 100 + d2) as u32,
    ensures
        y1 == y2,
        d1 == d2,
{
}

/// Within a year counted from March, a day determines its month and its
/// day of the month.
proof fn lemma_month_of_year_unique(m1: u32, d1: u32, m2: u32, d2: u32)
    by (bit_vector)
    requires
        m1 <= 11,
        m2 <= 11,
        1 <= d1,
        1 <= d2,
        (153 * m1 + 2) / 5 + d1 <= (153 * m1 + 155) / 5,
        (153 * m2 + 2) / 5 + d2 <= (153 * m2 + 155) / 5,
        (153 * m1 + 2) / 5 + d1 == (153 * m2 + 2) / 5 + d2,
    ensures
        m1 == m2,
        d1 == d2,
{
}

/// The day of the year (counted from March) of a valid day of the month
/// `month`, before the start of the next month.
#[verifier::spinoff_prover]
proof fn lemma_month_bounds(year: int, month: int, day: int)
    requires
        valid_date(year, month, day),
    ensures
        ({
            let mp = if month > 2 { month - 3 } else { month + 9 };
            &&& 0 <= mp <= 11
            &&& (153 * mp + 2) / 5 + day <= (153 * mp + 155) / 5
            &&& 0 <= (153 * mp + 2) / 5 + day - 1 <= 365
            &&& (month != 2 || day <= 28) ==> (153 * mp + 2) / 5 + day - 1 <= 364
        }),
{
}

/// Where a leap day falls in the era: a 29th of February ends a year of
/// the era (counted from March) that lies just before a leap year.
#[verifier::spinoff_prover]
proof fn lemma_leap_in_era(year: int)
    requires
        is_leap_year(year),
    ensures
        ({
            let yoe = (year - 1) - ((year - 1) / 400) * 400;
            yoe % 4 == 3 && (yoe % 100 != 99 || yoe == 399)
        }),
{
    let era = (year - 1) / 400;
    let yoe = (year - 1) - era * 400;
    assert(year == era * 400 + yoe + 1);
    assert(year % 4 == (yoe + 1) % 4);
    assert(year % 100 == (yoe + 1) % 100);
    assert(year % 400 == (yoe + 1) % 400);
}

/// The position of a valid date in its era: year of the era, month and
/// day of the year counted from March, within their bounds.
proof fn lemma_date_parts(year: int, month: int, day: int)
    requires
        valid_date(year, month, day),
    ensures
        ({
            let y = if month <= 2 { year - 1 } else { year };
            let era = y / 400;
            let yoe = y - era * 400;
            let mp = if month > 2 { month - 3 } else { month + 9 };
            let doy = (153 * mp + 2) / 5 + day - 1;
            &&& 0 <= yoe <= 399
            &&& 0 <= mp <= 11
            &&& (153 * mp + 2) / 5 + day <= (153 * mp + 155) / 5
            &&& 0 <= doy <= 365
            &&& (doy <= 364 || (yoe % 4 == 3 && (yoe % 100 != 99 || yoe == 399)))
        }),
{
    lemma_month_bounds(year, month, day);
    if month == 2 && day > 28 {
        lemma_leap_in_era(year);
    }
}

/// Distinct valid dates have distinct day counts: a day count names one
/// date at most.
pub proof fn lemma_days_from_civil_injective(y1: int, m1: int, d1: int, y2: int, m2: int, d2: int)
    requires
        valid_date(y1, m1, d1),
        valid_date(y2, m2, d2),
        days_from_civil(y1, m1, d1) == days_from_civil(y2, m2, d2),
    ensures
        y1 == y2,
        m1 == m2,
        d1 == d2,
{
    lemma_date_parts(y1, m1, d1);
    lemma_date_parts(y2, m2, d2);
    let a1 = if m1 <= 2 { y1 - 1 } else { y1 };
    let a2 = if m2 <= 2 { y2 - 1 } else { y2 };
    let era1 = a1 / 400;
    let era2 = a2 / 400;
    let yoe1 = a1 - era1 * 400;
    let yoe2 = a2 - era2 * 400;
    let mp1 = if m1 > 2 { m1 - 3 } else { m1 + 9 };
    let mp2 = if m2 > 2 { m2 - 3 } else { m2 + 9 };
    let doy1 = (153 * mp1 + 2) / 5 + d1 - 1;
    let doy2 = (153 * mp2 + 2) / 5 + d2 - 1;
    let doe1 = yoe1 * 365 + yoe1 / 4 - yoe1 / 100 + doy1;
    let doe2 = yoe2 * 365 + yoe2 / 4 - yoe2 / 100 + doy2;
    assert(0 <= doe1 <= 146096);
    assert(0 <= doe2 <= 146096);
    assert(era1 * 146097 + doe1 == era2 * 146097 + doe2);
    if era1 < era2 {
        assert(era1 * 146097 + 146097 <= era2 * 146097);
    } else if era1 > era2 {
        assert(era2 * 146097 + 146097 <= era1 * 146097);
    }
    assert(era1 == era2);
    lemma_year_of_era_unique(yoe1 as u32, doy1 as u32, yoe2 as u32, doy2 as u32);
    lemma_month_of_year_unique(mp1 as u32, d1 as u32, mp2 as u32, d2 as u32);
}

/// The date that lies `days` days after 1970-01-01 (before it when
/// negative), as year, month and day of month.
#[verifier::spinoff_prover]
#[verifier::rlimit(80)]
pub fn civil_from_days(days: i64) -> (r: (i64, u32, u32))
    requires
        days <= i64::MAX - 719468,
    ensures
        valid_date(r.0 as int, r.1 as int, r.2 as int),
        days_from_civil(r.0 as int, r.1 as int, r.2 as int) == days,
{
    let z: i64 = days + 719468;
    let era: i64 = if z >= 0 {
        z / 146097
    } else {
        -((146096 - z) / 146097)
    };
    let doe: i64 = z - era * 146097;
    assert(0 <= doe <= 146096);
    let doe32: u32 = doe as u32;
    proof {
        lemma_year_of_era(doe32);
    }
    let yoe: u32 = (doe32 - doe32 / 1460 + doe32 / 36524 - doe32 / 146096) / 365;
    let doy: u32 = doe32 - (365 * yoe + yoe / 4 - yoe / 100);
    proof {
        lemma_month_of_year(doy);
    }
    let mp: u32 = (5 * doy + 2) / 153;
    let d: u32 = doy - (153 * mp + 2) / 5 + 1;
    let m: u32 = if mp < 10 {
        mp + 3
    } else {
        mp - 9
    };
    let y: i64 = yoe as i64 + era * 400;
    let year: i64 = if m <= 2 {
        y + 1
    } else {
        y
    };
    assert(y / 400 == era);
    (year, m, d)
}

/// The decimal digit character of `n` (below ten).
pub open spec fn digit_char(n: int) -> char {
    ((n + 48) as u8) as char
}

/// Decimal digits of `n`, most significant first, without leading zeros.
pub open spec fn decimal(n: nat) -> Seq<char>
    decreases n,
{
    if n < 10 {
        seq![digit_char(n as int)]
    } else {
        decimal(n / 10).push(digit_char((n % 10) as int))
    }
}

/// `n` in decimal, with zeros in front up to `width` characters.
pub open spec fn zero_padded(n: nat, width: nat) -> Seq<char> {
    let digits = decimal(n);
    if digits.len() < width {
        Seq::new((width - digits.len()) as nat, |i: int| '0') + digits
    } else {
        digits
    }
}

/// A year as `{year:04}` writes it: four places at least, the sign of a
/// negative year counted among them.
pub open spec fn year_text(year: int) -> Seq<char> {
    if year >= 0 {
        zero_padded(year as nat, 4)
    } else {
        seq!['-'] + zero_padded((-year) as nat, 3)
    }
}

/// The date in the `YYYY-MM-DD` form.
pub open spec fn iso_text(year: int, month: nat, day: nat) -> Seq<char> {
    year_text(year) + seq!['-'] + zero_padded(month, 2) + seq!['-'] + zero_padded(day, 2)
}

/// Day count of a time in seconds from the epoch, rounded toward zero.
pub open spec fn day_of(seconds: int) -> int {
    if seconds >= 0 {
        seconds / 86400
    } else {
        -((-seconds) / 86400)
    }
}

/// Appends the decimal digits of `n`.
fn push_decimal(out: &mut String, n: u64)
    ensures
        final(out)@ == old(out)@ + decimal(n as nat),
    decreases n,
{
    if n >= 10 {
        push_decimal(out, n / 10);
    }
    let c: char = ((n % 10) as u8 + 48) as char;
    push_char(out, c);
    assert(final(out)@ =~= old(out)@ + decimal(n as nat));
}

/// Lengths of the decimal forms of numbers below a thousand, and a lower
/// bound above.
proof fn lemma_decimal_len(n: nat)
    ensures
        n < 10 ==> decimal(n).len() == 1,
        10 <= n < 100 ==> decimal(n).len() == 2,
        100 <= n < 1000 ==> decimal(n).len() == 3,
        1000 <= n ==> decimal(n).len() >= 4,
    decreases n,
{
    reveal_with_fuel(decimal, 4);
    if n >= 10 {
        lemma_decimal_len(n / 10);
    }
}

/// Appends `n` zero-padded to `width` characters.
fn push_padded(out: &mut String, n: u64, width: usize)
    requires
        width <= 4,
    ensures
        final(out)@ == old(out)@ + zero_padded(n as nat, width as nat),
{
    proof {
        lemma_decimal_len(n as nat);
    }
    let len: usize = if n < 10 {
        1
    } else if n < 100 {
        2
    } else if n < 1000 {
        3
    } else {
        4
    };
    let mut i: usize = len;
    let ghost start = out@;
    while i < width
        invariant
            len <= i <= 4,
            width <= 4,
            len < width ==> i <= width,
            len >= width ==> i == len,
            len < 4 ==> len == decimal(n as nat).len(),
            len == 4 ==> decimal(n as nat).len() >= 4,
            out@ == start + Seq::new((i - len) as nat, |k: int| '0'),
        decreases width - i,
    {
        push_char(out, '0');
        i = i + 1;
        assert(out@ =~= start + Seq::new((i - len) as nat, |k: int| '0'));
    }
    push_decimal(out, n);
    assert(out@ =~= old(out)@ + zero_padded(n as nat, width as nat));
}

/// The date in the `YYYY-MM-DD` form: the year in four places at least,
/// month and day in two.
pub fn iso_date(year: i64, month: u32, day: u32) -> (r: String)
    ensures
        r@ == iso_text(year as int, month as nat, day as nat),
{
    let mut out = String::new();
    if year >= 0 {
        push_padded(&mut out, year as u64, 4);
    } else {
        push_char(&mut out, '-');
        let magnitude: u64 = (0i128 - year as i128) as u64;
        push_padded(&mut out, magnitude, 3);
    }
    push_char(&mut out, '-');
    push_padded(&mut out, month as u64, 2);
    push_char(&mut out, '-');
    push_padded(&mut out, day as u64, 2);
    assert(out@ =~= iso_text(year as int, month as nat, day as nat));
    out
}

/// The `YYYY-MM-DD` date of a time given in seconds from the epoch.
pub fn date_stamp(seconds: i64) -> (r: String)
    ensures
        exists|year: int, month: int, day: int|
            {
                &&& valid_date(year, month, day)
                &&& days_from_civil(year, month, day) == day_of(seconds as int)
                &&& r@ == iso_text(year, month as nat, day as nat)
            },
{
    let days: i64 = if seconds >= 0 {
        seconds / 86400
    } else {
        let magnitude: i128 = 0i128 - seconds as i128;
        (0i128 - magnitude / 86400) as i64
    };
    let (year, month, day) = civil_from_days(days);
    let r = iso_date(year, month, day);
    assert(valid_date(year as int, month as int, day as int) && days_from_civil(
        year as int,
        month as int,
        day as int,
    ) == day_of(seconds as int) && r@ == iso_text(year as int, month as nat, day as nat));
    r
}

} // verus!
