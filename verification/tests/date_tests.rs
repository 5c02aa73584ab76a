use todo::date::{Date, MAX_YEAR, MIN_YEAR};
use todo::todo::TodoError;

#[test]
fn dates_that_exist() {
    let day = Date::from_ymd(2023, 12, 31).unwrap();
    assert_eq!(day.year(), 2023);
    assert_eq!(day.month(), 12);
    assert_eq!(day.day(), 31);
    assert!(Date::from_ymd(2024, 2, 29).is_ok());
    assert!(Date::from_ymd(2000, 2, 29).is_ok());
    assert!(Date::from_ymd(-4, 2, 29).is_ok());
    assert!(Date::from_ymd(0, 2, 29).is_ok());
    assert!(Date::from_ymd(2023, 1, 1).is_ok());
    assert!(Date::from_ymd(2023, 4, 30).is_ok());
    assert!(Date::from_ymd(MIN_YEAR, 1, 1).is_ok());
    assert!(Date::from_ymd(MAX_YEAR, 12, 31).is_ok());
}

#[test]
fn dates_that_do_not_exist() {
    assert!(matches!(Date::from_ymd(2023, 13, 1), Err(TodoError::InvalidDate)));
    assert!(matches!(Date::from_ymd(2023, 2, 30), Err(TodoError::InvalidDate)));
    assert!(matches!(Date::from_ymd(2023, 2, 29), Err(TodoError::InvalidDate)));
    assert!(matches!(Date::from_ymd(1900, 2, 29), Err(TodoError::InvalidDate)));
    assert!(matches!(Date::from_ymd(2023, 4, 31), Err(TodoError::InvalidDate)));
    assert!(matches!(Date::from_ymd(2023, 0, 10), Err(TodoError::InvalidDate)));
    assert!(matches!(Date::from_ymd(2023, 10, 0), Err(TodoError::InvalidDate)));
    assert!(matches!(Date::from_ymd(2023, 10, 32), Err(TodoError::InvalidDate)));
    assert!(matches!(Date::from_ymd(MIN_YEAR - 1, 12, 31), Err(TodoError::InvalidDate)));
    assert!(matches!(Date::from_ymd(MAX_YEAR + 1, 1, 1), Err(TodoError::InvalidDate)));
    assert!(matches!(Date::from_ymd(i32::MAX, u32::MAX, u32::MAX), Err(TodoError::InvalidDate)));
}

#[test]
fn dates_are_read_from_text() {
    assert_eq!(Date::parse("2023-12-31").unwrap(), Date::from_ymd(2023, 12, 31).unwrap());
    assert_eq!(Date::parse("2024-02-29").unwrap(), Date::from_ymd(2024, 2, 29).unwrap());
    assert!(matches!(Date::parse("2023-02-30"), Err(TodoError::InvalidDate)));
    assert!(matches!(Date::parse("2023-13-01"), Err(TodoError::InvalidDate)));
    assert!(matches!(Date::parse("tomorrow"), Err(TodoError::InvalidDate)));
    assert!(matches!(Date::parse(""), Err(TodoError::InvalidDate)));
    assert!(matches!(Date::parse("31/12/2023"), Err(TodoError::InvalidDate)));
}

#[test]
fn dates_are_written_as_text() {
    assert_eq!(Date::from_ymd(2023, 12, 31).unwrap().to_text(), "2023-12-31");
    assert_eq!(Date::from_ymd(2015, 9, 5).unwrap().to_text(), "2015-09-05");
    assert_eq!(Date::from_ymd(5, 1, 2).unwrap().to_text(), "0005-01-02");
    let day = Date::from_ymd(1999, 3, 7).unwrap();
    assert_eq!(Date::parse(&day.to_text()).unwrap(), day);
}

fn leap(year: i64) -> bool {
    year.rem_euclid(4) == 0 && (year.rem_euclid(100) != 0 || year.rem_euclid(400) == 0)
}

fn days(year: i64, month: u32) -> u32 {
    match month {
        2 => {
            if leap(year) {
                29
            } else {
                28
            }
        }
        4 | 6 | 9 | 11 => 30,
        _ => 31,
    }
}

fn is_a_day(year: i32, month: u32, day: u32) -> bool {
    MIN_YEAR <= year
        && year <= MAX_YEAR
        && 1 <= month
        && month <= 12
        && 1 <= day
        && day <= days(year as i64, month)
}

fn agree_in(years: std::ops::RangeInclusive<i32>) {
    for year in years {
        for month in 0..=14u32 {
            for day in 0..=33u32 {
                match Date::from_ymd(year, month, day) {
                    Ok(date) => {
                        assert!(is_a_day(year, month, day));
                        assert_eq!((date.year(), date.month(), date.day()), (year, month, day));
                    }
                    Err(error) => {
                        assert!(!is_a_day(year, month, day));
                        assert!(matches!(error, TodoError::InvalidDate));
                    }
                }
            }
        }
    }
}

#[test]
fn dates_exist_as_the_calendar_says() {
    agree_in(-1300..=2900);
    agree_in(MIN_YEAR - 3..=MIN_YEAR + 3);
    agree_in(MAX_YEAR - 3..=MAX_YEAR + 3);
    agree_in(i32::MIN..=i32::MIN + 1);
    agree_in(i32::MAX - 1..=i32::MAX);
}

#[test]
fn a_copy_of_a_date_is_the_same_date() {
    let day = Date::from_ymd(2024, 2, 29).unwrap();
    let copy = day;
    assert_eq!(day, copy);
    assert_ne!(day, Date::from_ymd(2024, 2, 28).unwrap());
    assert_ne!(day, Date::from_ymd(2024, 3, 29).unwrap());
    assert_ne!(day, Date::from_ymd(2020, 2, 29).unwrap());
}
