//! Dates of the Gregorian calendar, counted in days from 1 January 1970.

use vstd::prelude::*;

verus! {

/// The leap year rule.
pub open spec fn is_leap(year: int) -> bool {
    year % 4 == 0 && (year % 100 != 0 || year % 400 == 0)
}

/// The days of a year.
pub open spec fn year_len(year: int) -> int {
    if is_leap(year) {
        366
    } else {
        365
    }
}

/// The days of a month, which is numbered from 1.
pub open spec fn month_len(year: int, month: int) -> int {
    if month == 2 {
        if is_leap(year) {
            29
        } else {
            28
        }
    } else if month == 4 || month == 6 || month == 9 || month == 11 {
        30
    } else {
        31
    }
}

/// The days from 1 January 1970 to 1 January of `year`; negative before 1970.
pub open spec fn days_before_year(year: int) -> int
    decreases
            if year >= 1970 {
                year - 1970
            } else {
                1970 - year
            },
{
    if year == 1970 {
        0
    } else if year > 1970 {
        days_before_year(year - 1) + year_len(year - 1)
    } else {
        days_before_year(year + 1) - year_len(year)
    }
}

/// The days of the months in front of `month`.
pub open spec fn days_before_month(year: int, month: int) -> int
    decreases month,
{
    if month <= 1 {
        0
    } else {
        days_before_month(year, month - 1) + month_len(year, month - 1)
    }
}

/// A date of the Gregorian calendar.
#[derive(Debug, PartialEq, Eq)]
pub struct Date {
    pub year: i64,
    pub month: i64,
    pub day: i64,
}

impl Date {
    /// The calendar has this date.
    pub open spec fn exists_in_calendar(self) -> bool {
        &&& 1 <= self.month <= 12
        &&& 1 <= self.day <= month_len(self.year as int, self.month as int)
    }

    /// The days from 1 January 1970 to this date.
    pub open spec fn day_number(self) -> int {
        days_before_year(self.year as int) + days_before_month(self.year as int, self.month as int)
            + self.day - 1
    }
}

/// A leap day is counted once every four years, but not once every hundred, but
/// once every four hundred.
proof fn lemma_leap_days(year: int)
    ensures
        year / 4 - year / 100 + year / 400 == (year - 1) / 4 - (year - 1) / 100 + (year - 1) / 400
            + year_len(year) - 365,
{
    assert(year / 4 == (year - 1) / 4 + if year % 4 == 0 {
        1int
    } else {
        0
    });
    assert(year / 100 == (year - 1) / 100 + if year % 100 == 0 {
        1int
    } else {
        0
    });
    assert(year / 400 == (year - 1) / 400 + if year % 400 == 0 {
        1int
    } else {
        0
    });
    assert(year % 400 == 0 ==> year % 100 == 0);
    assert(year % 100 == 0 ==> year % 4 == 0);
}

proof fn lemma_days_before_year(year: int)
    ensures
        days_before_year(year) == 365 * (year - 1970) + (year - 1) / 4 - (year - 1) / 100 + (year
            - 1) / 400 - 477,
    decreases
            if year >= 1970 {
                year - 1970
            } else {
                1970 - year
            },
{
    if year > 1970 {
        lemma_days_before_year(year - 1);
        lemma_leap_days(year - 1);
    } else if year < 1970 {
        lemma_days_before_year(year + 1);
        lemma_leap_days(year);
    }
}

/// One year after the other.
proof fn lemma_next_year(year: int)
    ensures
        days_before_year(year + 1) == days_before_year(year) + year_len(year),
{
    if year < 1970 {
        assert(days_before_year(year) == days_before_year(year + 1) - year_len(year));
    }
}

/// The days in front of a year that begins on 1 March, counted from 1 March of
/// the year 0.
proof fn lemma_march_year(year: int)
    ensures
        days_before_year(year) + days_before_month(year, 3) + 719468 == 365 * year + year / 4 - year
            / 100 + year / 400,
{
    lemma_days_before_year(year);
    assert(days_before_month(year, 3) == if is_leap(year) {
        60int
    } else {
        59
    }) by {
        reveal_with_fuel(days_before_month, 4);
    }
    lemma_leap_days(year);
}

/// Day `doe` of a span of 400 years that begins on 1 March falls in year `yoe`
/// of the span, on day `doy` of that year.
proof fn lemma_year_of_era(doe: int)
    requires
        0 <= doe < 146097,
    ensures
        ({
            let yoe = (doe - doe / 1460 + doe / 36524 - doe / 146096) / 365;
            let doy = doe - (365 * yoe + yoe / 4 - yoe / 100);
            &&& 0 <= yoe <= 399
            &&& 0 <= doy <= 365
            &&& doy == 365 ==> is_leap(yoe + 1)
        }),
{
    // The true year, by centuries of 36524 days and then by fours of 1461 days.
    let cen = if doe == 146096 {
        3
    } else {
        doe / 36524
    };
    let r = doe - 36524 * cen;
    assert(0 <= cen <= 3 && 0 <= r <= 36524 && (cen < 3 ==> r < 36524));
    let q = r / 1461;
    let rem = r % 1461;
    assert(r == 1461 * q + rem && 0 <= q <= 24);
    let t = if rem == 1460 {
        3
    } else {
        rem / 365
    };
    assert(0 <= t <= 3);
    let k = 100 * cen + 4 * q + t;
    let day = rem - 365 * t;
    assert(0 <= day <= 365);
    assert(day == 365 ==> rem == 1460);
    // The formula finds it.
    assert(doe / 36524 - doe / 146096 == cen);
    let e = (24 * cen + q + rem) / 1460;
    assert(0 <= e <= 1);
    assert(doe / 1460 == 25 * cen + q + e);
    let n = doe - doe / 1460 + doe / 36524 - doe / 146096;
    assert(n == 365 * k + day - e);
    assert(0 <= day - e < 365) by {
        if e == 1 {
            assert(rem >= 1364);
            assert(t == 3);
        }
    }
    assert(n / 365 == k);
    assert(k / 4 == 25 * cen + q);
    assert(k / 100 == cen);
    if day == 365 {
        assert(t == 3);
        assert(q == 24 ==> r == 36524);
    }
}

/// Day `doy` of a year that begins on 1 March falls in the month `mp` months
/// after March, on day `d`.
proof fn lemma_month_of_year(year: int, doy: int)
    requires
        0 <= doy <= 365,
        doy == 365 ==> is_leap(year + 1),
    ensures
        ({
            let mp = (5 * doy + 2) / 153;
            let d = doy - (153 * mp + 2) / 5 + 1;
            let m = if mp < 10 {
                mp + 3
            } else {
                mp - 9
            };
            let y = if m <= 2 {
                year + 1
            } else {
                year
            };
            &&& 1 <= m <= 12
            &&& 1 <= d <= month_len(y, m)
            &&& days_before_year(y) + days_before_month(y, m) + d - 1 == days_before_year(year)
                + days_before_month(year, 3) + doy
        }),
{
    lemma_next_year(year);
    reveal_with_fuel(days_before_month, 13);
    let mp = (5 * doy + 2) / 153;
    assert(0 <= mp <= 11);
    let d = doy - (153 * mp + 2) / 5 + 1;
    if mp == 0 {
    } else if mp == 1 {
    } else if mp == 2 {
    } else if mp == 3 {
    } else if mp == 4 {
    } else if mp == 5 {
    } else if mp == 6 {
    } else if mp == 7 {
    } else if mp == 8 {
    } else if mp == 9 {
    } else if mp == 10 {
    } else {
    }
}

/// The year that begins on 1 March, `yoe` years into 400-year span `era`,
/// begins so many days after 1 March of the year 0.
proof fn lemma_era_year(era: int, yoe: int)
    requires
        0 <= yoe <= 399,
    ensures
        days_before_year(yoe + era * 400) + days_before_month(yoe + era * 400, 3) + 719468 == 146097
            * era + 365 * yoe + yoe / 4 - yoe / 100,
        is_leap(yoe + 1) == is_leap(yoe + era * 400 + 1),
{
    let y = yoe + era * 400;
    lemma_march_year(y);
    assert(y / 4 == 100 * era + yoe / 4);
    assert(y / 100 == 4 * era + yoe / 100);
    assert(y / 400 == era);
}

/// The date that is `days` days after 1 January 1970.
pub fn civil_from_days(days: i64) -> (date: Date)
    requires
        days <= i64::MAX - 719_468,
    ensures
        date.exists_in_calendar(),
        date.day_number() == days,
{
    // Years are counted from 1 March, so that a leap day is the last day of its year.
    let z: i64 = days + 719_468;
    let era: i64 = z.checked_div_euclid(146_097).unwrap();
    let doe: i64 = z.checked_rem_euclid(146_097).unwrap();
    proof {
        lemma_year_of_era(doe as int);
    }
    let yoe: i64 = (doe - doe / 1460 + doe / 36_524 - doe / 146_096) / 365;
    let y: i64 = yoe + era * 400;
    let doy: i64 = doe - (365 * yoe + yoe / 4 - yoe / 100);
    proof {
        lemma_era_year(era as int, yoe as int);
        lemma_month_of_year(y as int, doy as int);
    }
    let mp: i64 = (5 * doy + 2) / 153;
    let d: i64 = doy - (153 * mp + 2) / 5 + 1;
    let m: i64 = if mp < 10 {
        mp + 3
    } else {
        mp - 9
    };
    Date {
        year: if m <= 2 {
            y + 1
        } else {
            y
        },
        month: m,
        day: d,
    }
}

/// The date that is `days` days after 1 January 1970, as [`Date`] can hold it.
pub open spec fn date_of(days: int) -> Date {
    choose|date: Date| date.exists_in_calendar() && date.day_number() == days
}

/// Every day that [`civil_from_days`] takes has a date.
pub proof fn every_day_has_a_date(days: int)
    requires
        i64::MIN <= days <= i64::MAX - 719_468,
    ensures
        date_of(days).exists_in_calendar(),
        date_of(days).day_number() == days,
{
    let z = days + 719_468;
    let era = z / 146_097;
    let doe = z % 146_097;
    lemma_year_of_era(doe);
    let yoe = (doe - doe / 1460 + doe / 36_524 - doe / 146_096) / 365;
    let y = yoe + era * 400;
    let doy = doe - (365 * yoe + yoe / 4 - yoe / 100);
    lemma_era_year(era, yoe);
    lemma_month_of_year(y, doy);
    let mp = (5 * doy + 2) / 153;
    let m = if mp < 10 {
        mp + 3
    } else {
        mp - 9
    };
    let date = Date {
        year: (if m <= 2 {
            y + 1
        } else {
            y
        }) as i64,
        month: m as i64,
        day: (doy - (153 * mp + 2) / 5 + 1) as i64,
    };
    assert(date.exists_in_calendar() && date.day_number() == days);
}

proof fn lemma_days_before_year_grows(a: int, b: int)
    requires
        a <= b,
    ensures
        days_before_year(a) <= days_before_year(b),
{
    lemma_days_before_year(a);
    lemma_days_before_year(b);
}

proof fn lemma_days_before_month_grows(year: int, a: int, b: int)
    requires
        1 <= a <= b,
    ensures
        days_before_month(year, a) <= days_before_month(year, b),
    decreases b - a,
{
    if a < b {
        lemma_days_before_month_grows(year, a, b - 1);
    }
}

/// A date lies between the first day of its year and that of the next, and
/// between the first day of its month and that of the next.
proof fn lemma_date_in_year(date: Date)
    requires
        date.exists_in_calendar(),
    ensures
        days_before_year(date.year as int) <= date.day_number() < days_before_year(date.year + 1),
        days_before_month(date.year as int, date.month as int) <= date.day_number()
            - days_before_year(date.year as int) < days_before_month(
            date.year as int,
            date.month + 1,
        ),
{
    lemma_next_year(date.year as int);
    lemma_days_before_month_grows(date.year as int, 1, date.month as int);
    lemma_days_before_month_grows(date.year as int, date.month + 1, 13);
    reveal_with_fuel(days_before_month, 14);
}

/// No two dates are the same number of days after 1 January 1970.
pub proof fn dates_are_told_apart(a: Date, b: Date)
    requires
        a.exists_in_calendar(),
        b.exists_in_calendar(),
        a.day_number() == b.day_number(),
    ensures
        a == b,
{
    lemma_date_in_year(a);
    lemma_date_in_year(b);
    if a.year < b.year {
        lemma_days_before_year_grows(a.year + 1, b.year as int);
    } else if b.year < a.year {
        lemma_days_before_year_grows(b.year + 1, a.year as int);
    }
    if a.month < b.month {
        lemma_days_before_month_grows(a.year as int, a.month + 1, b.month as int);
    } else if b.month < a.month {
        lemma_days_before_month_grows(a.year as int, b.month + 1, a.month as int);
    }
}

/// Dates are in the order of their years, then of their months, then of their days.
pub proof fn dates_are_in_order(a: Date, b: Date)
    requires
        a.exists_in_calendar(),
        b.exists_in_calendar(),
    ensures
        a.day_number() < b.day_number() <==> {
            ||| a.year < b.year
            ||| a.year == b.year && a.month < b.month
            ||| a.year == b.year && a.month == b.month && a.day < b.day
        },
{
    lemma_date_in_year(a);
    lemma_date_in_year(b);
    if a.year < b.year {
        lemma_days_before_year_grows(a.year + 1, b.year as int);
    } else if b.year < a.year {
        lemma_days_before_year_grows(b.year + 1, a.year as int);
    } else if a.month < b.month {
        lemma_days_before_month_grows(a.year as int, a.month + 1, b.month as int);
    } else if b.month < a.month {
        lemma_days_before_month_grows(a.year as int, b.month + 1, a.month as int);
    }
}

/// The days from 1 January 1970 to 31 December 9999 fall in the years between.
pub proof fn four_digit_years(date: Date)
    requires
        date.exists_in_calendar(),
        0 <= date.day_number() <= 2_932_896,
    ensures
        1970 <= date.year <= 9999,
{
    lemma_date_in_year(date);
    if date.year < 1970 {
        lemma_days_before_year_grows(date.year + 1, 1970);
    }
    if date.year > 9999 {
        lemma_days_before_year_grows(10000, date.year as int);
        lemma_days_before_year(10000);
    }
}

/// The calendar repeats itself every 400 years, which are 146097 days: the same years
/// are leap years, and the months are as long.
pub proof fn the_calendar_repeats_itself(year: int, month: int)
    ensures
        is_leap(year + 400) == is_leap(year),
        month_len(year + 400, month) == month_len(year, month),
        days_before_year(year + 400) == days_before_year(year) + 146097,
        days_before_month(year + 400, month) == days_before_month(year, month),
    decreases month,
{
    lemma_days_before_year(year);
    lemma_days_before_year(year + 400);
    assert((year + 400 - 1) / 4 == (year - 1) / 4 + 100);
    assert((year + 400 - 1) / 100 == (year - 1) / 100 + 4);
    assert((year + 400 - 1) / 400 == (year - 1) / 400 + 1);
    if month > 1 {
        the_calendar_repeats_itself(year, month - 1);
    }
}

/// Day 0 is 1 January 1970, and each day is followed by the next of its month, or by the
/// first of the next month, or by 1 January.
pub proof fn days_follow_each_other(a: Date, b: Date)
    requires
        a.exists_in_calendar(),
        b.exists_in_calendar(),
        b.day_number() == a.day_number() + 1,
    ensures
        ({
            ||| b.year == a.year && b.month == a.month && b.day == a.day + 1
            ||| b.year == a.year && b.month == a.month + 1 && b.day == 1
            ||| b.year == a.year + 1 && b.month == 1 && b.day == 1 && a.month == 12 && a.day == 31
        }),
        (Date { year: 1970, month: 1, day: 1 }).day_number() == 0,
{
    if a.day < month_len(a.year as int, a.month as int) {
        dates_are_told_apart(b, Date { day: (a.day + 1) as i64, ..a });
    } else if a.month < 12 {
        dates_are_told_apart(b, Date { year: a.year, month: (a.month + 1) as i64, day: 1 });
    } else {
        lemma_last_month(a.year as int);
        lemma_next_year(a.year as int);
        dates_are_in_order(a, b);
        let next = Date { year: (a.year + 1) as i64, month: 1, day: 1 };
        assert(days_before_month(next.year as int, 1) == 0);
        dates_are_told_apart(b, next);
    }
}

proof fn lemma_last_month(year: int)
    ensures
        days_before_month(year, 12) + 31 == year_len(year),
{
    reveal_with_fuel(days_before_month, 13);
}

} // verus!
