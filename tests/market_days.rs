use stonks::date::{is_market_holiday, is_market_open_day, is_stale, last_market_open_day, MarketDate};

fn date(y: i32, m: u32, d: u32) -> MarketDate {
    MarketDate::from_ymd(y, m, d).unwrap()
}

#[test]
fn day_numbers_follow_the_calendar() {
    assert_eq!(date(1, 1, 1).day_number(), 1);
    assert_eq!(date(1970, 1, 1).day_number(), 719_163);
    assert_eq!(date(2024, 3, 10).day_number(), 738_955);
    assert!(MarketDate::from_ymd(2023, 2, 29).is_none());
    assert!(MarketDate::from_ymd(2024, 2, 29).is_some());
    assert!(MarketDate::from_ymd(2024, 13, 1).is_none());
    assert_eq!(date(2024, 3, 10).ymd(), Some((2024, 3, 10)));
}

#[test]
fn weekdays() {
    assert_eq!(date(2024, 3, 8).weekday(), 4);
    assert_eq!(date(2024, 3, 10).weekday(), 6);
    assert_eq!(date(2024, 3, 11).weekday(), 0);
}

#[test]
fn holiday_table() {
    assert!(is_market_holiday(date(2020, 7, 3)));
    assert!(!is_market_holiday(date(2020, 7, 2)));
    assert!(!is_market_open_day(date(2020, 7, 3)));
    assert!(is_market_open_day(date(2020, 7, 2)));
}

#[test]
fn stale_never_on_weekend() {
    assert!(!is_stale(date(2024, 3, 8), date(2024, 3, 10)));
    assert!(!is_stale(date(2000, 1, 1), date(2024, 3, 9)));
}

#[test]
fn stale_on_weekday_when_dates_differ() {
    assert!(is_stale(date(2024, 3, 8), date(2024, 3, 11)));
    assert!(!is_stale(date(2024, 3, 11), date(2024, 3, 11)));
    assert!(!is_stale(date(2020, 7, 1), date(2020, 7, 3)));
}

#[test]
fn last_open_day_walks_back() {
    assert_eq!(last_market_open_day(date(2024, 3, 10)), date(2024, 3, 8));
    assert_eq!(last_market_open_day(date(2024, 3, 9)), date(2024, 3, 8));
    assert_eq!(last_market_open_day(date(2024, 3, 11)), date(2024, 3, 11));
    assert_eq!(last_market_open_day(date(2020, 7, 5)), date(2020, 7, 2));
    assert_eq!(last_market_open_day(date(2020, 7, 3)), date(2020, 7, 2));
}
