use chrono::NaiveDate;
use stockburn::data::calendar::{
    is_nasdaq_trading_day, is_nasdaq_trading_time, naitve_utc_is_nasdaq_trading_time,
    naive_utc_is_nasdaq_trading_day, Date, NASDAQDays, NASDAQMinutes, Timestamp, TradingMinutes,
};

fn day(y: i32, m: u32, d: u32) -> Date {
    let date = NaiveDate::from_ymd_opt(y, m, d).unwrap();
    let epoch = NaiveDate::from_ymd_opt(1970, 1, 1).unwrap();
    Date {
        days: (date - epoch).num_days() as i32,
    }
}

fn instant(y: i32, m: u32, d: u32, h: u32, min: u32, s: u32) -> Timestamp {
    Timestamp {
        secs: NaiveDate::from_ymd_opt(y, m, d)
            .unwrap()
            .and_hms_opt(h, min, s)
            .unwrap()
            .and_utc()
            .timestamp(),
    }
}

#[test]
fn weekdays_follow_the_calendar() {
    assert_eq!(day(1970, 1, 1).weekday_from_monday(), 3);
    assert_eq!(day(2020, 10, 10).weekday_from_monday(), 5);
    assert_eq!(day(2020, 10, 12).weekday_from_monday(), 0);
    assert_eq!(day(1969, 12, 28).weekday_from_monday(), 6);
}

#[test]
fn weekends_are_not_trading_days() {
    assert!(!naive_utc_is_nasdaq_trading_day(day(2020, 10, 10)));
    assert!(!is_nasdaq_trading_day(day(2020, 10, 11)));
    assert!(naive_utc_is_nasdaq_trading_day(day(2020, 10, 12)));
    assert!(is_nasdaq_trading_day(day(2020, 10, 16)));
    assert!(!is_nasdaq_trading_day(day(1969, 12, 27)));
}

#[test]
fn trading_hours_window() {
    assert!(!is_nasdaq_trading_time(instant(2020, 10, 12, 14, 29, 59)));
    assert!(is_nasdaq_trading_time(instant(2020, 10, 12, 14, 30, 0)));
    assert!(is_nasdaq_trading_time(instant(2020, 10, 12, 18, 0, 0)));
    assert!(naitve_utc_is_nasdaq_trading_time(instant(2020, 10, 12, 21, 0, 0)));
    assert!(!naitve_utc_is_nasdaq_trading_time(instant(2020, 10, 12, 21, 1, 0)));
    assert!(!is_nasdaq_trading_time(instant(2020, 10, 10, 15, 0, 0)));
}

#[test]
fn timestamp_clock_fields() {
    let t = instant(2020, 6, 22, 22, 59, 33);
    assert_eq!(t.hour(), 22);
    assert_eq!(t.minute(), 59);
    assert_eq!(t.day_number(), day(2020, 6, 22).days as i64);
    let before_epoch = instant(1969, 12, 31, 23, 30, 0);
    assert_eq!(before_epoch.hour(), 23);
    assert_eq!(before_epoch.minute(), 30);
    assert_eq!(before_epoch.day_number(), -1);
}

#[test]
fn trading_days_skip_weekends() {
    let mut days = NASDAQDays(day(2020, 10, 10));
    assert_eq!(days.next(), Some(day(2020, 10, 12)));
    for d in 13..=16 {
        assert_eq!(days.next(), Some(day(2020, 10, d)));
    }
    assert_eq!(days.next(), Some(day(2020, 10, 19)));
    let mut last = NASDAQDays(Date { days: i32::MAX });
    assert_eq!(last.next(), None);
}

#[test]
fn trading_minutes_of_a_day() {
    let mut minutes = NASDAQMinutes::for_date(day(2020, 10, 12));
    let mut all = Vec::new();
    while let Some(t) = minutes.next() {
        all.push(t);
    }
    assert_eq!(all.len(), 391);
    assert_eq!(all[0], instant(2020, 10, 12, 14, 30, 0));
    assert_eq!(all[390], instant(2020, 10, 12, 21, 0, 0));
    assert!(all.windows(2).all(|w| w[1].secs - w[0].secs == 60));
    assert_eq!(minutes.next(), None);
}

#[test]
fn no_trading_minutes_on_a_weekend() {
    let mut minutes = NASDAQMinutes::for_date(day(2020, 10, 10));
    assert_eq!(minutes.next(), None);
}

#[test]
fn trading_minutes_run_across_days() {
    let mut minutes = TradingMinutes::starting(day(2020, 10, 9));
    let mut all = Vec::new();
    for _ in 0..(391 * 3) {
        all.push(minutes.next().unwrap());
    }
    assert_eq!(all[0], instant(2020, 10, 9, 14, 30, 0));
    assert_eq!(all[390], instant(2020, 10, 9, 21, 0, 0));
    assert_eq!(all[391], instant(2020, 10, 12, 14, 30, 0));
    assert_eq!(all[782], instant(2020, 10, 13, 14, 30, 0));
    assert!(all.windows(2).all(|w| w[0].secs < w[1].secs));
    assert!(all.iter().all(|t| is_nasdaq_trading_time(*t)));
}
