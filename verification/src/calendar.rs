//! The proleptic Gregorian calendar, in UTC, counted in days since 1970-01-01.
use vstd::prelude::*;

use crate::number::append_signed;
use crate::text::same_text;

verus! {

/// Seconds of a day.
pub const SECS_PER_DAY: i64 = 86_400;

/// Whether a year is a leap year.
pub open spec fn is_leap(y: int) -> bool {
    y % 4 == 0 && (y % 100 != 0 || y % 400 == 0)
}

/// Days of a year.
pub open spec fn days_in_year(y: int) -> int {
    if is_leap(y) {
        366
    } else {
        365
    }
}

/// Days of a month.
pub open spec fn days_in_month(y: int, m: int) -> int {
    if m == 2 {
        if is_leap(y) {
            29
        } else {
            28
        }
    } else if m == 4 || m == 6 || m == 9 || m == 11 {
        30
    } else {
        31
    }
}

/// The first day of a year: the lengths of the years between 1970 and it, added
/// up.
pub open spec fn year_start(y: int) -> int
    decreases
            if y >= 1970 {
                y - 1970
            } else {
                1970 - y
            },
{
    if y == 1970 {
        0
    } else if y > 1970 {
        year_start(y - 1) + days_in_year(y - 1)
    } else {
        year_start(y + 1) - days_in_year(y)
    }
}

/// Days of a year before a month.
pub open spec fn month_start(y: int, m: int) -> int
    decreases m,
{
    if m <= 1 {
        0
    } else {
        month_start(y, m - 1) + days_in_month(y, m - 1)
    }
}

/// The day of a date.
pub open spec fn day_number(y: int, m: int, d: int) -> int {
    year_start(y) + month_start(y, m) + d - 1
}

/// Whether year, month and day make a date.
pub open spec fn is_date(y: int, m: int, d: int) -> bool {
    1 <= m <= 12 && 1 <= d <= days_in_month(y, m)
}

/// Whether a day lies on the given date.
pub open spec fn falls_on(day: int, y: int, m: int, d: int) -> bool {
    is_date(y, m, d) && day_number(y, m, d) == day
}

/// The start of a year in closed form.
pub proof fn lemma_year_start(y: int)
    ensures
        year_start(y) == 365 * (y - 1970) + (y - 1) / 4 - (y - 1) / 100 + (y - 1) / 400 - 477,
    decreases
            if y >= 1970 {
                y - 1970
            } else {
                1970 - y
            },
{
    if y > 1970 {
        lemma_year_start(y - 1);
        lemma_year_step(y - 1);
    } else if y < 1970 {
        lemma_year_start(y + 1);
        lemma_year_step(y);
    }
}

proof fn lemma_year_step(y: int)
    ensures
        y / 4 - (y - 1) / 4 == if y % 4 == 0 {
            1int
        } else {
            0
        },
        y / 100 - (y - 1) / 100 == if y % 100 == 0 {
            1int
        } else {
            0
        },
        y / 400 - (y - 1) / 400 == if y % 400 == 0 {
            1int
        } else {
            0
        },
        y % 400 == 0 ==> y % 100 == 0,
        y % 100 == 0 ==> y % 4 == 0,
{
    lemma_step_of_4(y);
    lemma_step_of_100(y);
    lemma_step_of_400(y);
}

proof fn lemma_step_of_4(y: int)
    ensures
        y / 4 - (y - 1) / 4 == if y % 4 == 0 {
            1int
        } else {
            0
        },
{
}

proof fn lemma_step_of_100(y: int)
    ensures
        y / 100 - (y - 1) / 100 == if y % 100 == 0 {
            1int
        } else {
            0
        },
        y % 100 == 0 ==> y % 4 == 0,
{
}

proof fn lemma_step_of_400(y: int)
    ensures
        y / 400 - (y - 1) / 400 == if y % 400 == 0 {
            1int
        } else {
            0
        },
        y % 400 == 0 ==> y % 100 == 0,
{
}

/// The months before each month.
proof fn lemma_month_start(y: int)
    ensures
        month_start(y, 1) == 0,
        month_start(y, 2) == 31,
        forall|m: int|
            3 <= m <= 12 ==> #[trigger] month_start(y, m) == days_in_year(y) - 306 + (153 * (m - 3)
                + 2) / 5,
        month_start(y, 13) == days_in_year(y),
{
    reveal_with_fuel(month_start, 14);
    assert forall|m: int| 3 <= m <= 12 implies #[trigger] month_start(y, m) == days_in_year(y) - 306
        + (153 * (m - 3) + 2) / 5 by {
        assert(m == 3 || m == 4 || m == 5 || m == 6 || m == 7 || m == 8 || m == 9 || m == 10 || m
            == 11 || m == 12);
    }
}

/// Days of a cycle of 400 years, counted from March, before its year `n`.
spec fn cycle_start(n: int) -> int {
    365 * n + n / 4 - n / 100
}

proof fn lemma_year_of_cycle(doe: int)
    requires
        0 <= doe <= 146_096,
    ensures
        ({
            let yoe = (doe - doe / 1_460 + doe / 36_524 - doe / 146_096) / 365;
            &&& 0 <= yoe <= 399
            &&& cycle_start(yoe) <= doe
            &&& doe < cycle_start(yoe + 1) || yoe == 399
        }),
{
}

/// Later years start later.
proof fn lemma_years_ascend(a: int, b: int)
    requires
        a < b,
    ensures
        year_start(a) + days_in_year(a) <= year_start(b),
    decreases b - a,
{
    lemma_year_start(a);
    lemma_year_start(a + 1);
    lemma_year_step(a);
    if a + 1 < b {
        lemma_years_ascend(a + 1, b);
    }
}

/// A date lies within its year.
proof fn lemma_date_in_year(y: int, m: int, d: int)
    requires
        is_date(y, m, d),
    ensures
        year_start(y) <= day_number(y, m, d) < year_start(y) + days_in_year(y),
        month_start(y, m + 1) == month_start(y, m) + days_in_month(y, m),
{
    reveal_with_fuel(month_start, 14);
}

/// No day lies on two dates.
pub proof fn law_one_date_per_day(day: int, y: int, m: int, d: int, y2: int, m2: int, d2: int)
    requires
        falls_on(day, y, m, d),
        falls_on(day, y2, m2, d2),
    ensures
        y == y2 && m == m2 && d == d2,
{
    lemma_date_in_year(y, m, d);
    lemma_date_in_year(y2, m2, d2);
    if y < y2 {
        lemma_years_ascend(y, y2);
    } else if y2 < y {
        lemma_years_ascend(y2, y);
    }
    reveal_with_fuel(month_start, 14);
}

/// The day of 1 March of a year in closed form.
proof fn lemma_march(y: int)
    ensures
        day_number(y, 3, 1) == 365 * y + y / 4 - y / 100 + y / 400 - 719_468,
{
    lemma_year_start(y);
    lemma_year_step(y);
    lemma_month_start(y);
}

/// The date of a day. (That there is one, and no other, is
/// [`law_every_day_has_a_date`] and [`law_one_date_per_day`].)
pub open spec fn date_of(day: int) -> (int, int, int) {
    choose|y: int, m: int, d: int| falls_on(day, y, m, d)
}

/// Year, month and day of the day that lies `z` days after 1 March of year 0.
spec fn civil(z: int) -> (int, int, int) {
    let era = z / 146_097;
    let doe = z % 146_097;
    let yoe = (doe - doe / 1_460 + doe / 36_524 - doe / 146_096) / 365;
    let doy = doe - cycle_start(yoe);
    let mp = (5 * doy + 2) / 153;
    let d = doy - (153 * mp + 2) / 5 + 1;
    if mp < 10 {
        (yoe + era * 400, mp + 3, d)
    } else {
        (yoe + era * 400 + 1, mp - 9, d)
    }
}

/// [`civil`] gives the date of a day.
proof fn lemma_civil(day: int)
    ensures
        falls_on(
            day,
            civil(day + 719_468).0,
            civil(day + 719_468).1,
            civil(day + 719_468).2,
        ),
{
    let z = day + 719_468;
    let era = z / 146_097;
    let doe = z % 146_097;
    let yoe = (doe - doe / 1_460 + doe / 36_524 - doe / 146_096) / 365;
    lemma_year_of_cycle(doe);
    let y = yoe + era * 400;
    let doy = doe - cycle_start(yoe);
    lemma_march(y);
    assert(y / 4 == yoe / 4 + 100 * era);
    assert(y / 100 == yoe / 100 + 4 * era);
    assert(y / 400 == era);
    assert(day_number(y, 3, 1) + doy == day);
    lemma_year_step(y + 1);
    lemma_year_step(yoe + 1);
    assert((y + 1) % 4 == (yoe + 1) % 4);
    assert((y + 1) % 100 == (yoe + 1) % 100);
    assert((y + 1) % 400 == (yoe + 1) % 400);
    assert(0 <= doy <= 365);
    assert(doy == 365 ==> is_leap(y + 1));
    lemma_month_start(y);
    lemma_month_start(y + 1);
    lemma_year_start(y);
    lemma_year_start(y + 1);
    lemma_year_step(y);
    let mp = (5 * doy + 2) / 153;
    assert(0 <= mp <= 11);
    if mp < 10 {
        assert(month_start(y, mp + 3) == days_in_year(y) - 306 + (153 * mp + 2) / 5);
        lemma_month_of_year(y, doy, mp);
    } else {
        lemma_month_of_year(y, doy, mp);
    }
}

/// The month and the day within it, from the days since 1 March.
proof fn lemma_month_of_year(y: int, doy: int, mp: int)
    requires
        0 <= doy <= 365,
        doy == 365 ==> is_leap(y + 1),
        mp == (5 * doy + 2) / 153,
    ensures
        0 <= mp <= 11,
        mp < 10 ==> is_date(y, mp + 3, doy - (153 * mp + 2) / 5 + 1),
        mp >= 10 ==> is_date(y + 1, mp - 9, doy - (153 * mp + 2) / 5 + 1),
{
    assert(mp == 0 || mp == 1 || mp == 2 || mp == 3 || mp == 4 || mp == 5 || mp == 6 || mp == 7
        || mp == 8 || mp == 9 || mp == 10 || mp == 11);
}

/// Every day has a date.
pub proof fn law_every_day_has_a_date(day: int)
    ensures
        falls_on(day, date_of(day).0, date_of(day).1, date_of(day).2),
{
    lemma_civil(day);
}

/// The date of a day since 1970-01-01, in UTC. (A year that does not fit in 32
/// bits loses its upper bits.)
pub fn civil_from_days(days_since_epoch: i64) -> (r: (i32, u32, u32))
    requires
        days_since_epoch <= i64::MAX - 719_468,
    ensures
        r.0 == date_of(days_since_epoch as int).0 as i32,
        r.1 == date_of(days_since_epoch as int).1,
        r.2 == date_of(days_since_epoch as int).2,
        falls_on(
            days_since_epoch as int,
            date_of(days_since_epoch as int).0,
            r.1 as int,
            r.2 as int,
        ),
{
    let z: i64 = days_since_epoch + 719_468;
    let era: i64 = (if z >= 0 {
        z
    } else {
        z - 146_096
    }) / 146_097;
    let doe: i64 = z - era * 146_097;
    let yoe: i64 = (doe - doe / 1_460 + doe / 36_524 - doe / 146_096) / 365;
    proof {
        assert(era == z as int / 146_097);
        assert(doe == z as int % 146_097);
        lemma_year_of_cycle(doe as int);
    }
    let y: i64 = yoe + era * 400;
    let doy: i64 = doe - (365 * yoe + yoe / 4 - yoe / 100);
    let mp: i64 = (5 * doy + 2) / 153;
    let d: i64 = doy - (153 * mp + 2) / 5 + 1;
    let m: i64 = mp + if mp < 10 {
        3
    } else {
        -9
    };
    let year: i64 = y + if m <= 2 {
        1
    } else {
        0
    };
    proof {
        let day = days_since_epoch as int;
        lemma_civil(day);
        law_every_day_has_a_date(day);
        assert(civil(day + 719_468) == (year as int, m as int, d as int));
        let (a, b, c) = date_of(day);
        law_one_date_per_day(day, year as int, m as int, d as int, a, b, c);
    }
    (#[verifier::truncate] (year as i32), m as u32, d as u32)
}

/// The day of a date, counted from 1970-01-01. Months outside 1 to 12 and days
/// outside their month are counted on by the same rule.
pub fn days_from_civil(year: i32, month: u32, day: u32) -> (r: i64)
    ensures
        1 <= month <= 12 ==> r == day_number(year as int, month as int, day as int),
        ({
            let y: int = year - if month <= 2 {
                1int
            } else {
                0
            };
            let mp: int = month + if month > 2 {
                -3int
            } else {
                9
            };
            r == 365 * y + y / 4 - y / 100 + y / 400 - 719_468 + (153 * mp + 2) / 5 + day - 1
        }),
{
    let month: i64 = month as i64;
    let day: i64 = day as i64;
    let y: i64 = year as i64 - if month <= 2 {
        1
    } else {
        0
    };
    let era: i64 = (if y >= 0 {
        y
    } else {
        y - 399
    }) / 400;
    let yoe: i64 = y - era * 400;
    let mp: i64 = month + if month > 2 {
        -3
    } else {
        9
    };
    let doy: i64 = (153 * mp + 2) / 5 + day - 1;
    let doe: i64 = yoe * 365 + yoe / 4 - yoe / 100 + doy;
    proof {
        assert(era == y as int / 400);
        assert(y as int / 4 == yoe / 4 + 100 * era);
        assert(y as int / 100 == yoe / 100 + 4 * era);
        lemma_march(y as int);
        lemma_month_start(year as int);
        lemma_year_start(y as int);
        lemma_year_start(y + 1);
        lemma_year_step(y as int);
        lemma_month_start(y as int);
    }
    era * 146_097 + doe - 719_468
}

/// The date of a day leads back to the day, and the day of a date to the date.
pub proof fn law_dates_and_days(day: int, y: int, m: int, d: int)
    ensures
        ({
            let date = date_of(day);
            day_number(date.0, date.1, date.2) == day
        }),
        is_date(y, m, d) ==> date_of(day_number(y, m, d)) == (y, m, d),
{
    law_every_day_has_a_date(day);
    if is_date(y, m, d) {
        let n = day_number(y, m, d);
        law_every_day_has_a_date(n);
        let (a, b, c) = date_of(n);
        law_one_date_per_day(n, y, m, d, a, b, c);
    }
}

/// The time of a clock that reads `since_epoch` whole seconds after 1970-01-01,
/// and 0 for a clock that reads an earlier time. (From 2^63 seconds on the count
/// starts again at the other end.)
pub fn now_secs(since_epoch: Option<u64>) -> (r: i64)
    ensures
        match since_epoch {
            Some(s) => r == s as i64,
            None => r == 0,
        },
{
    match since_epoch {
        Some(s) => #[verifier::truncate] (s as i64),
        None => 0,
    }
}

/// The quotient rounded towards zero.
pub open spec fn quotient(a: int, b: int) -> int {
    if a >= 0 {
        a / b
    } else {
        -((-a) / b)
    }
}

/// The remainder that belongs to [`quotient`]: it has the sign of `a`.
pub open spec fn remainder(a: int, b: int) -> int {
    a - b * quotient(a, b)
}

/// A number of seconds in hours, minutes and seconds.
pub open spec fn duration_text(secs: int) -> Seq<char> {
    crate::number::signed_decimal(quotient(secs, 3_600)) + "h "@ + crate::number::signed_decimal(
        quotient(remainder(secs, 3_600), 60),
    ) + "m "@ + crate::number::signed_decimal(remainder(secs, 60)) + "s"@
}

/// Writes a duration.
pub fn fmt_duration(secs: i64) -> (r: String)
    ensures
        r@ == duration_text(secs as int),
{
    let h: i64 = secs / 3_600;
    let m: i64 = (secs - h * 3_600) / 60;
    let s: i64 = secs - (secs / 60) * 60;
    let mut r = String::new();
    append_signed(&mut r, h);
    r.append("h ");
    append_signed(&mut r, m);
    r.append("m ");
    append_signed(&mut r, s);
    r.append("s");
    r
}

/// The parts of a duration add up to it, and all have its sign.
pub proof fn law_duration_parts(secs: int)
    ensures
        ({
            let h = quotient(secs, 3_600);
            let m = quotient(remainder(secs, 3_600), 60);
            let s = remainder(secs, 60);
            &&& secs == 3_600 * h + 60 * m + s
            &&& secs >= 0 ==> h >= 0 && 0 <= m < 60 && 0 <= s < 60
            &&& secs <= 0 ==> h <= 0 && -60 < m <= 0 && -60 < s <= 0
        }),
{
}

/// The days between the last Monday and a day. (1970-01-01 was a Thursday.)
pub open spec fn days_since_monday(day: int) -> int {
    (day + 3) % 7
}

/// Whether the week around a time can be counted in 64 bits.
pub open spec fn week_fits(now: int) -> bool {
    i64::MIN + 7 * SECS_PER_DAY <= now <= i64::MAX - 7 * SECS_PER_DAY
}

/// Decides whether the week around a time can be counted in 64 bits.
pub fn is_week_countable(now: i64) -> (r: bool)
    ensures
        r == week_fits(now as int),
{
    i64::MIN + 7 * SECS_PER_DAY <= now && now <= i64::MAX - 7 * SECS_PER_DAY
}

/// The first and the last second of the day, week (from Monday) or month in
/// which `now` lies, in UTC, with the name of the interval; nothing for other
/// kinds of interval. Of the years of a month, the lower 32 bits count.
pub open spec fn interval_around(kind: Seq<char>, now: int) -> Option<(int, int, Seq<char>)> {
    let day = now / SECS_PER_DAY as int;
    if kind == "day"@ {
        Some((day * SECS_PER_DAY, (day + 1) * SECS_PER_DAY - 1, "current day"@))
    } else if kind == "week"@ {
        let monday = day - days_since_monday(day);
        Some((monday * SECS_PER_DAY, (monday + 7) * SECS_PER_DAY - 1, "current week"@))
    } else if kind == "month"@ {
        let (year, month, _) = date_of(day);
        let year = year as i32;
        let next = if month == 12 {
            day_number((year + 1) as i32 as int, 1, 1)
        } else {
            day_number(year as int, month + 1, 1)
        };
        Some(
            (
                day_number(year as int, month, 1) * SECS_PER_DAY,
                next * SECS_PER_DAY - 1,
                "current month"@,
            ),
        )
    } else {
        None
    }
}

/// The interval of a kind of statistics around a time.
pub fn stats_interval(kind: &str, now: i64) -> (r: Option<(i64, i64, &'static str)>)
    requires
        week_fits(now as int),
    ensures
        match r {
            Some(i) => interval_around(kind@, now as int) == Some((i.0 as int, i.1 as int, i.2@)),
            None => interval_around(kind@, now as int) is None,
        },
{
    let q: i64 = now / SECS_PER_DAY;
    let days: i64 = if q * SECS_PER_DAY > now {
        q - 1
    } else {
        q
    };
    assert(days == now as int / SECS_PER_DAY as int);
    if same_text(kind, "day") {
        let start: i64 = days * SECS_PER_DAY;
        Some((start, start + (SECS_PER_DAY - 1), "current day"))
    } else if same_text(kind, "week") {
        let t: i64 = (days + 3) % 7;
        let weekday_monday0: i64 = if t < 0 {
            t + 7
        } else {
            t
        };
        assert(weekday_monday0 == (days + 3) % 7);
        let start: i64 = (days - weekday_monday0) * SECS_PER_DAY;
        Some((start, start + (7 * SECS_PER_DAY - 1), "current week"))
    } else if same_text(kind, "month") {
        let (year, month, _) = civil_from_days(days);
        let start_days: i64 = days_from_civil(year, month, 1);
        let next_start_days: i64 = if month == 12 {
            days_from_civil(next_year(year), 1, 1)
        } else {
            days_from_civil(year, month + 1, 1)
        };
        proof {
            lemma_day_bounds(year as int, month as int);
            lemma_day_bounds((year + 1) as i32 as int, 1);
            if month < 12 {
                lemma_day_bounds(year as int, month + 1);
            }
        }
        Some((start_days * SECS_PER_DAY, next_start_days * SECS_PER_DAY - 1, "current month"))
    } else {
        None
    }
}

/// The year after a year, counted in 32 bits.
fn next_year(year: i32) -> (r: i32)
    ensures
        r == (year + 1) as i32,
{
    #[verifier::truncate] ((year as i64 + 1) as i32)
}

/// A bound on the days of 32-bit years.
proof fn lemma_day_bounds(y: int, m: int)
    requires
        i32::MIN <= y <= i32::MAX,
        1 <= m <= 12,
    ensures
        -1_000_000_000_000 < day_number(y, m, 1) < 1_000_000_000_000,
{
    lemma_year_start(y);
    lemma_month_start(y);
}

proof fn lemma_whole_days(n: int)
    ensures
        (n * SECS_PER_DAY) / SECS_PER_DAY as int == n,
        (n * SECS_PER_DAY - 1) / SECS_PER_DAY as int == n - 1,
{
}

/// The interval around a time holds it; the interval of a week starts on a
/// Monday and is seven days long; that of a month runs from the first to the last
/// day of the month, as far as its year and the next fit in 32 bits.
pub proof fn law_interval_holds_now(kind: Seq<char>, now: int)
    requires
        kind == "month"@ ==> i32::MIN <= date_of(now / SECS_PER_DAY as int).0 < i32::MAX,
    ensures
        interval_around(kind, now) is Some <==> kind == "day"@ || kind == "week"@ || kind
            == "month"@,
        interval_around(kind, now) matches Some(i) ==> i.0 <= now <= i.1,
        kind == "week"@ ==> {
            let i = interval_around(kind, now)->0;
            days_since_monday(i.0 / SECS_PER_DAY as int) == 0 && i.1 - i.0 == 7 * SECS_PER_DAY - 1
        },
        kind == "month"@ ==> {
            let i = interval_around(kind, now)->0;
            let today = date_of(now / SECS_PER_DAY as int);
            let first = date_of(i.0 / SECS_PER_DAY as int);
            let last = date_of(i.1 / SECS_PER_DAY as int);
            &&& first == (today.0, today.1, 1int)
            &&& last == (today.0, today.1, days_in_month(today.0, today.1))
        },
{
    reveal_strlit("day");
    reveal_strlit("week");
    reveal_strlit("month");
    assert("day"@.len() == 3 && "week"@.len() == 4 && "month"@.len() == 5);
    let day = now / SECS_PER_DAY as int;
    if kind == "week"@ {
        let monday = day - days_since_monday(day);
        lemma_whole_days(monday);
        let i = interval_around(kind, now)->0;
        assert(i.0 == monday * SECS_PER_DAY);
        assert(i.0 / SECS_PER_DAY as int == monday);
        assert((day - days_since_monday(day) + 3) % 7 == 0);
    }
    if kind == "month"@ {
        law_every_day_has_a_date(day);
        let (y, m, d) = date_of(day);
        assert(y as i32 == y);
        assert((y + 1) as i32 == y + 1);
        lemma_month_start(y);
        lemma_month_start(y + 1);
        lemma_year_start(y);
        lemma_year_start(y + 1);
        lemma_year_step(y);
        law_dates_and_days(day, y, m, 1);
        law_dates_and_days(day, y, m, days_in_month(y, m));
        let next = if m == 12 {
            day_number(y + 1, 1, 1)
        } else {
            day_number(y, m + 1, 1)
        };
        assert(next == day_number(y, m, days_in_month(y, m)) + 1);
        lemma_whole_days(day_number(y, m, 1));
        lemma_whole_days(next);
        let i = interval_around(kind, now)->0;
        assert(i.0 == day_number(y, m, 1) * SECS_PER_DAY);
        assert(i.1 == next * SECS_PER_DAY - 1);
        assert(i.0 / SECS_PER_DAY as int == day_number(y, m, 1));
        assert(i.1 / SECS_PER_DAY as int == next - 1);
    }
}

/// The calendar: it begins with 1 January 1970, day follows day, month follows month and
/// year follows year; the months have 31 days, four of them 30, and February 28, or 29
/// in every fourth year but those that end a century, save every fourth of these.
pub proof fn law_calendar(y: int, m: int, d: int)
    ensures
        day_number(1970, 1, 1) == 0,
        day_number(y, m, d + 1) == day_number(y, m, d) + 1,
        1 <= m < 12 ==> day_number(y, m + 1, 1) == day_number(y, m, days_in_month(y, m)) + 1,
        day_number(y + 1, 1, 1) == day_number(y, 12, 31) + 1,
        m == 1 || m == 3 || m == 5 || m == 7 || m == 8 || m == 10 || m == 12 ==> days_in_month(y, m)
            == 31,
        m == 4 || m == 6 || m == 9 || m == 11 ==> days_in_month(y, m) == 30,
        days_in_month(y, 2) == if y % 400 == 0 {
            29int
        } else if y % 100 == 0 {
            28
        } else if y % 4 == 0 {
            29
        } else {
            28
        },
        is_date(y, m, d) <==> 1 <= m <= 12 && 1 <= d <= days_in_month(y, m),
{
    lemma_month_start(y);
    lemma_month_start(y + 1);
    lemma_month_start(1970);
    lemma_year_start(y);
    lemma_year_start(y + 1);
    lemma_year_step(y);
    lemma_year_step(y + 1);
    reveal_with_fuel(month_start, 14);
}

/// What the intervals are. A day has 86400 seconds and begins at a multiple of them. A
/// week has seven days and lies a whole number of weeks from Monday, 5 January 1970. No
/// interval is asked for in other words.
pub proof fn law_days_and_weeks(kind: Seq<char>, now: int)
    ensures
        kind == "day"@ ==> {
            &&& interval_around(kind, now) matches Some(i)
            &&& i.0 <= now <= i.1
            &&& i.0 % 86_400 == 0
            &&& i.1 - i.0 == 86_399
            &&& i.2 == "current day"@
        },
        kind == "week"@ ==> {
            &&& interval_around(kind, now) matches Some(i)
            &&& i.0 <= now <= i.1
            &&& (i.0 - 4 * 86_400) % 604_800 == 0
            &&& i.1 - i.0 == 604_799
            &&& i.2 == "current week"@
        },
        kind == "month"@ ==> {
            &&& interval_around(kind, now) matches Some(i)
            &&& i.2 == "current month"@
        },
        kind != "day"@ && kind != "week"@ && kind != "month"@ ==> interval_around(kind, now) is None,
{
    reveal_strlit("day");
    reveal_strlit("week");
    reveal_strlit("month");
    assert("day"@.len() == 3 && "week"@.len() == 4 && "month"@.len() == 5);
    let day = now / 86_400;
    if kind == "week"@ {
        let monday = day - days_since_monday(day);
        assert((monday + 3) % 7 == 0);
        assert((monday - 4) % 7 == 0);
        let k = (monday - 4) / 7;
        assert(monday * 86_400 - 4 * 86_400 == k * 604_800);
    }
}

/// A duration is written as its hours, minutes and seconds.
pub proof fn law_durations(h: int, m: int, s: int)
    requires
        0 <= h,
        0 <= m < 60,
        0 <= s < 60,
    ensures
        duration_text(3_600 * h + 60 * m + s) == crate::number::signed_decimal(h) + "h "@
            + crate::number::signed_decimal(m) + "m "@ + crate::number::signed_decimal(s) + "s"@,
        duration_text(-(3_600 * h + 60 * m + s)) == crate::number::signed_decimal(-h) + "h "@
            + crate::number::signed_decimal(-m) + "m "@ + crate::number::signed_decimal(-s) + "s"@,
{
    let secs = 3_600 * h + 60 * m + s;
    assert(secs / 3_600 == h);
    assert((60 * m + s) / 60 == m);
    assert(secs / 60 == 60 * h + m);
}

} // verus!
