use vstd::prelude::*;

verus! {

pub open spec fn is_leap_year(y: int) -> bool {
    y % 4 == 0 && (y % 100 != 0 || y % 400 == 0)
}

pub open spec fn days_in_month(y: int, m: int) -> int {
    if m == 2 {
        if is_leap_year(y) {
            29
        } else {
            28
        }
    } else if m == 4 || m == 6 || m == 9 || m == 11 {
        30
    } else {
        31
    }
}

/// A day of the proleptic Gregorian calendar that chrono can represent.
pub open spec fn valid_ymd(y: int, m: int, d: int) -> bool {
    -262143 <= y <= 262142 && 1 <= m <= 12 && 1 <= d <= days_in_month(y, m)
}

/// The number of the day in the proleptic Gregorian calendar, 1 January of year 1
/// being day 1 (years counted astronomically, year 0 before year 1).
pub open spec fn days_from_ce(y: int, m: int, d: int) -> int {
    let yy = if m <= 2 {
        y - 1
    } else {
        y
    };
    let era = yy / 400;
    let yoe = yy - era * 400;
    let mp = (m + 9) % 12;
    let doy = (153 * mp + 2) / 5 + d - 1;
    let doe = yoe * 365 + yoe / 4 - yoe / 100 + doy;
    era * 146097 + doe - 305
}

/// Relies on chrono's `NaiveDate::from_ymd_opt`, which gives a date exactly for the
/// valid days of its range, and `Datelike::num_days_from_ce`, which counts days from
/// 1 January of year 1 as day 1.
#[verifier::external_body]
fn day_number_of(y: i32, m: u32, d: u32) -> (r: Option<i32>)
    ensures
        r is Some <==> valid_ymd(y as int, m as int, d as int),
        r matches Some(n) ==> n == days_from_ce(y as int, m as int, d as int),
{
    match chrono::NaiveDate::from_ymd_opt(y, m, d) {
        Some(date) => Some(chrono::Datelike::num_days_from_ce(&date)),
        None => None,
    }
}

/// The day numbered `n` is a day of chrono's calendar.
pub open spec fn has_date(n: int) -> bool {
    exists|y: int, m: int, d: int| #[trigger] days_from_ce(y, m, d) == n && valid_ymd(y, m, d)
}

/// Relies on chrono's `NaiveDate::from_num_days_from_ce_opt`, the inverse of
/// `num_days_from_ce`, which gives a date for every day number in its range; the year,
/// month and day are read off the date it gives.
#[verifier::external_body]
fn ymd_of_day_number(n: i32) -> (r: Option<(i32, u32, u32)>)
    ensures
        has_date(n as int) ==> r is Some,
        r matches Some(t) ==> valid_ymd(t.0 as int, t.1 as int, t.2 as int) && days_from_ce(
            t.0 as int,
            t.1 as int,
            t.2 as int,
        ) == n,
{
    match chrono::NaiveDate::from_num_days_from_ce_opt(n) {
        Some(date) => Some(
            (
                chrono::Datelike::year(&date),
                chrono::Datelike::month(&date),
                chrono::Datelike::day(&date),
            ),
        ),
        None => None,
    }
}

proof fn lemma_days_from_ce_bounds(y: int, m: int, d: int)
    requires
        valid_ymd(y, m, d),
    ensures
        -96_000_000 <= days_from_ce(y, m, d) <= 96_000_000,
{
    let yy = if m <= 2 {
        y - 1
    } else {
        y
    };
    let era = yy / 400;
    let yoe = yy - era * 400;
    assert(-656 <= era <= 655);
    assert(0 <= yoe < 400);
    let mp = (m + 9) % 12;
    assert(0 <= (153 * mp + 2) / 5 <= 2000);
    assert(-95_839_632 <= era * 146097 <= 95_693_535) by (nonlinear_arith)
        requires
            -656 <= era <= 655,
    ;
    assert(0 <= yoe * 365 <= 146000) by (nonlinear_arith)
        requires
            0 <= yoe < 400,
    ;
}

/// Two days of the calendar have the same number only if they are the same day.
pub proof fn lemma_days_from_ce_injective(y1: int, m1: int, d1: int, y2: int, m2: int, d2: int)
    requires
        valid_ymd(y1, m1, d1),
        valid_ymd(y2, m2, d2),
        days_from_ce(y1, m1, d1) == days_from_ce(y2, m2, d2),
    ensures
        y1 == y2 && m1 == m2 && d1 == d2,
{
}

/// A calendar day, held as its day number (1 January of year 1 is day 1).
#[derive(Clone, Copy, PartialEq, Eq, Debug, Structural)]
pub struct MarketDate {
    days: i32,
}

/// Monday is 0, Sunday is 6; day 1 was a Monday.
pub open spec fn weekday_of(days: int) -> int {
    (days - 1) % 7
}

pub open spec fn is_weekend(days: int) -> bool {
    weekday_of(days) >= 5
}

/// The market's holiday table.
pub open spec fn is_holiday(days: int) -> bool {
    days == days_from_ce(2020, 7, 3)
}

/// A day on which the market trades.
pub open spec fn is_open_day(days: int) -> bool {
    !is_weekend(days) && !is_holiday(days)
}

/// The days that a date can hold: those of chrono's range, and the few open days
/// just before it.
pub open spec fn day_in_range(days: int) -> bool {
    -96_000_003 <= days <= 96_000_000 && (days >= -96_000_000 || is_open_day(days))
}

/// The catalog file made on day `created` is out of date on day `today`.
pub open spec fn stale(created: int, today: int) -> bool {
    is_open_day(today) && created != today
}

impl MarketDate {
    #[verifier::type_invariant]
    spec fn in_range(self) -> bool {
        day_in_range(self.days as int)
    }

    pub closed spec fn day(self) -> int {
        self.days as int
    }

    /// The date with the given year, month and day, if that day exists.
    pub fn from_ymd(y: i32, m: u32, d: u32) -> (r: Option<MarketDate>)
        ensures
            r is Some <==> valid_ymd(y as int, m as int, d as int),
            r matches Some(date) ==> date.day() == days_from_ce(y as int, m as int, d as int),
            r matches Some(date) ==> has_date(date.day()),
    {
        match day_number_of(y, m, d) {
            Some(n) => {
                proof {
                    lemma_days_from_ce_bounds(y as int, m as int, d as int);
                }
                Some(MarketDate { days: n })
            },
            None => None,
        }
    }

    /// The day number of the date.
    pub fn day_number(&self) -> (r: i32)
        ensures
            r == self.day(),
    {
        self.days
    }

    /// The year, month and day of the date.
    pub fn ymd(&self) -> (r: Option<(i32, u32, u32)>)
        ensures
            has_date(self.day()) ==> r is Some,
            r matches Some(t) ==> valid_ymd(t.0 as int, t.1 as int, t.2 as int) && days_from_ce(
                t.0 as int,
                t.1 as int,
                t.2 as int,
            ) == self.day(),
    {
        ymd_of_day_number(self.days)
    }

    /// The day of the week, Monday being 0 and Sunday 6.
    pub fn weekday(&self) -> (r: u8)
        ensures
            r == weekday_of(self.day()),
    {
        weekday_of_number(self.days)
    }
}

fn weekday_of_number(n: i32) -> (r: u8)
    ensures
        r == weekday_of(n as int),
{
    let w = (n as i64 - 1) % 7;
    let w = if w < 0 {
        w + 7
    } else {
        w
    };
    w as u8
}

fn is_holiday_number(n: i32) -> (r: bool)
    ensures
        r == is_holiday(n as int),
{
    match day_number_of(2020, 7, 3) {
        Some(h) => n == h,
        None => false,
    }
}

fn is_open_number(n: i32) -> (r: bool)
    ensures
        r == is_open_day(n as int),
{
    weekday_of_number(n) < 5 && !is_holiday_number(n)
}

/// Whether the market is closed for a holiday on `date`.
pub fn is_market_holiday(date: MarketDate) -> (r: bool)
    ensures
        r == is_holiday(date.day()),
{
    is_holiday_number(date.day_number())
}

/// Whether the market trades on `date`: a weekday that is not a holiday.
pub fn is_market_open_day(date: MarketDate) -> (r: bool)
    ensures
        r == is_open_day(date.day()),
{
    is_open_number(date.day_number())
}

/// Whether a catalog file created on `creation_date` must be fetched again on `today`:
/// never on a weekend or a market holiday, otherwise exactly when the dates differ.
pub fn is_stale(creation_date: MarketDate, today: MarketDate) -> (r: bool)
    ensures
        r == stale(creation_date.day(), today.day()),
        is_weekend(today.day()) ==> !r,
        !is_weekend(today.day()) && !is_holiday(today.day()) ==> (r <==> creation_date.day()
            != today.day()),
{
    if today.weekday() >= 5 || is_market_holiday(today) {
        false
    } else {
        creation_date.day_number() != today.day_number()
    }
}

/// Of any four consecutive days, the market is open on one.
proof fn lemma_open_within_four(t: int)
    ensures
        is_open_day(t) || is_open_day(t - 1) || is_open_day(t - 2) || is_open_day(t - 3),
{
    assert(weekday_of(t - 1) == (weekday_of(t) + 6) % 7);
    assert(weekday_of(t - 2) == (weekday_of(t) + 5) % 7);
    assert(weekday_of(t - 3) == (weekday_of(t) + 4) % 7);
}

/// The latest day no later than `today` on which the market is open.
pub fn last_market_open_day(today: MarketDate) -> (r: MarketDate)
    ensures
        r.day() <= today.day(),
        is_open_day(r.day()),
        forall|d: int| r.day() < d <= today.day() ==> !is_open_day(d),
{
    proof {
        use_type_invariant(today);
        lemma_open_within_four(today.day());
    }
    let t = today.day_number();
    let mut d: i32 = t;
    while !is_open_number(d)
        invariant
            t == today.day(),
            day_in_range(t as int),
            t - 3 <= d <= t,
            forall|x: int| d < x <= t ==> !is_open_day(x),
            is_open_day(t as int) || is_open_day(t - 1) || is_open_day(t - 2) || is_open_day(
                t - 3,
            ),
        decreases d - (t - 3),
    {
        d = d - 1;
    }
    MarketDate { days: d }
}

} // verus!
