use deltav::calendar::{iso_week_to_date, CalendarError, Date, Timestamp, MAX_YEAR, MIN_YEAR};
use chrono::Datelike;
use deltav::cli::current_iso_week;

fn ymd(y: i32, m: u32, d: u32) -> Date {
    Date::from_ymd(y, m, d).unwrap()
}

#[test]
fn iso_weeks_start_on_mondays() {
    assert_eq!(iso_week_to_date(2026, 2), Ok(ymd(2026, 1, 5)));
    assert_eq!(iso_week_to_date(2021, 1), Ok(ymd(2021, 1, 4)));
    assert_eq!(iso_week_to_date(2020, 53), Ok(ymd(2020, 12, 28)));
    assert_eq!(iso_week_to_date(2015, 1), Ok(ymd(2014, 12, 29)));
    let next = iso_week_to_date(2020, 10).unwrap();
    let prev = iso_week_to_date(2020, 9).unwrap();
    assert_eq!(next.days_since(prev), 7);
    assert_eq!(iso_week_to_date(MAX_YEAR + 1, 1), Err(CalendarError::InvalidYear));
    assert_eq!(iso_week_to_date(MIN_YEAR - 1, 1), Err(CalendarError::InvalidYear));
}

#[test]
fn calendar_days() {
    assert!(Date::from_ymd(2025, 2, 29).is_none());
    assert!(Date::from_ymd(2024, 2, 29).is_some());
    assert!(Date::from_ymd(2025, 13, 1).is_none());
    assert_eq!(ymd(1970, 1, 1).day, 719_163);
    assert_eq!(ymd(2025, 3, 1).days_since(ymd(2025, 2, 1)), 28);
    assert_eq!(ymd(2025, 12, 31).add_days(1), ymd(2026, 1, 1));
    assert!(ymd(2025, 1, 1).is_before(ymd(2025, 1, 2)));
}

#[test]
fn instants_and_their_dates() {
    let t = Timestamp { secs: 86_400 * 3 + 5, nanos: 0 };
    assert_eq!(t.date(), ymd(1970, 1, 4));
    let before_epoch = Timestamp { secs: -1, nanos: 999 };
    assert_eq!(before_epoch.date(), ymd(1969, 12, 31));
    assert!(before_epoch.is_at_or_before(&t));
    assert!(!t.is_at_or_before(&before_epoch));
}

#[test]
fn current_week_is_a_valid_week() {
    let (year, week) = current_iso_week();
    assert!((1..=53).contains(&week));
    let today = chrono::Local::now().date_naive();
    assert_eq!((year, week), (today.iso_week().year(), today.iso_week().week()));
    let monday = iso_week_to_date(year, week).unwrap();
    let today_day = today.num_days_from_ce();
    assert!(monday.day <= today_day && today_day < monday.day + 7);
}
