use chrono::Datelike;
use chrono::NaiveDate;
use loan_accrual::date::Date;
use loan_accrual::date::InvalidDate;

#[test]
fn from_ymd_gives_the_day_number_of_the_calendar() {
    assert_eq!(Date::from_ymd(1, 1, 1), Some(Date { days_from_ce: 1 }));
    assert_eq!(Date::from_ymd(0, 12, 31), Some(Date { days_from_ce: 0 }));
    assert_eq!(Date::from_ymd(2, 1, 1), Some(Date { days_from_ce: 366 }));
    assert_eq!(Date::from_ymd(1970, 1, 1), Some(Date { days_from_ce: 719_163 }));
    assert_eq!(Date::from_ymd(1999, 9, 3), Some(Date { days_from_ce: 730_000 }));
    assert_eq!(Date::from_ymd(2020, 1, 1), Some(Date { days_from_ce: 737_425 }));
}

#[test]
fn from_ymd_agrees_with_chrono() {
    let date = Date::from_ymd(2024, 2, 29).unwrap();
    let naive = NaiveDate::from_ymd_opt(2024, 2, 29).unwrap();
    assert_eq!(date.days_from_ce, naive.num_days_from_ce());
}

#[test]
fn from_ymd_refuses_days_that_do_not_exist() {
    assert_eq!(Date::from_ymd(2015, 2, 29), None);
    assert_eq!(Date::from_ymd(2023, 4, 31), None);
    assert_eq!(Date::from_ymd(2015, 0, 14), None);
    assert_eq!(Date::from_ymd(2015, 13, 1), None);
    assert_eq!(Date::from_ymd(2015, 3, 0), None);
    assert_eq!(Date::from_ymd(400_000, 1, 1), None);
    assert_eq!(Date::from_ymd(-400_000, 1, 1), None);
}

#[test]
fn from_ymd_knows_leap_years() {
    assert!(Date::from_ymd(2020, 2, 29).is_some());
    assert!(Date::from_ymd(2000, 2, 29).is_some());
    assert!(Date::from_ymd(1900, 2, 29).is_none());
    assert!(Date::from_ymd(-4, 2, 29).is_some());
}

#[test]
fn to_ymd_gives_year_month_and_day() {
    assert_eq!(Date { days_from_ce: 730_000 }.to_ymd(), Some((1999, 9, 3)));
    assert_eq!(Date { days_from_ce: 1 }.to_ymd(), Some((1, 1, 1)));
    assert_eq!(Date { days_from_ce: 0 }.to_ymd(), Some((0, 12, 31)));
    assert_eq!(Date { days_from_ce: -1 }.to_ymd(), Some((0, 12, 30)));
    assert_eq!(Date { days_from_ce: 737_425 }.to_ymd(), Some((2020, 1, 1)));
}

#[test]
fn to_ymd_is_none_beyond_the_calendar() {
    assert_eq!(Date { days_from_ce: 100_000_000 }.to_ymd(), None);
    assert_eq!(Date { days_from_ce: -100_000_000 }.to_ymd(), None);
    assert_eq!(Date { days_from_ce: i32::MAX }.to_ymd(), None);
    assert_eq!(Date { days_from_ce: i32::MIN }.to_ymd(), None);
}

#[test]
fn to_ymd_undoes_from_ymd() {
    let date = Date::from_ymd(2021, 12, 31).unwrap();
    assert_eq!(date.to_ymd(), Some((2021, 12, 31)));
}

#[test]
fn from_found_day_number_wraps_what_was_found() {
    assert_eq!(Date::from_found_day_number(Some(42)), Some(Date { days_from_ce: 42 }));
    assert_eq!(Date::from_found_day_number(Some(-7)), Some(Date { days_from_ce: -7 }));
    assert_eq!(Date::from_found_day_number(None), None);
}

#[test]
fn from_days_from_ce_keeps_the_number() {
    assert_eq!(Date::from_days_from_ce(737_425).days_from_ce, 737_425);
    assert_eq!(Date::from_days_from_ce(737_425), Date::from_ymd(2020, 1, 1).unwrap());
}

#[test]
fn days_since_is_the_difference_of_day_numbers() {
    let start = Date::from_ymd(2020, 1, 1).unwrap();
    let end = Date::from_ymd(2020, 1, 5).unwrap();
    assert_eq!(end.days_since(start), 4);
    assert_eq!(start.days_since(end), -4);
    assert_eq!(start.days_since(start), 0);
}

#[test]
fn days_since_agrees_with_chrono() {
    let a = NaiveDate::from_ymd_opt(2014, 1, 1).unwrap();
    let b = NaiveDate::from_ymd_opt(1614, 1, 1).unwrap();
    let da = Date::from_ymd(2014, 1, 1).unwrap();
    let db = Date::from_ymd(1614, 1, 1).unwrap();
    assert_eq!(da.days_since(db), a.signed_duration_since(b).num_days());
    assert_eq!(da.days_since(db), 365 * 400 + 97);
}

#[test]
fn days_since_does_not_overflow_at_the_ends() {
    let low = Date { days_from_ce: i32::MIN };
    let high = Date { days_from_ce: i32::MAX };
    assert_eq!(high.days_since(low), 4_294_967_295);
    assert_eq!(low.days_since(high), -4_294_967_295);
}

#[test]
fn checked_add_days_moves_along_the_calendar() {
    let start = Date::from_ymd(2020, 2, 27).unwrap();
    assert_eq!(start.checked_add_days(0), Some(start));
    assert_eq!(start.checked_add_days(2), Date::from_ymd(2020, 2, 29));
    assert_eq!(start.checked_add_days(3), Date::from_ymd(2020, 3, 1));
    assert_eq!(start.checked_add_days(-27), Date::from_ymd(2020, 1, 31));
}

#[test]
fn checked_add_days_agrees_with_chrono() {
    let naive = NaiveDate::from_ymd_opt(2014, 1, 1).unwrap() + chrono::Duration::days(365 * 4 + 1);
    let date = Date::from_ymd(2014, 1, 1).unwrap().checked_add_days(365 * 4 + 1).unwrap();
    assert_eq!(date.to_ymd(), Some((naive.year(), naive.month(), naive.day())));
    assert_eq!(date.to_ymd(), Some((2018, 1, 1)));
}

#[test]
fn checked_add_days_is_none_past_the_ends() {
    let high = Date { days_from_ce: i32::MAX };
    let low = Date { days_from_ce: i32::MIN };
    assert_eq!(high.checked_add_days(1), None);
    assert_eq!(low.checked_add_days(-1), None);
    assert_eq!(high.checked_add_days(i64::MAX), None);
    assert_eq!(low.checked_add_days(i64::MIN), None);
    assert_eq!(high.checked_add_days(0), Some(high));
    assert_eq!(low.checked_add_days(4_294_967_295), Some(high));
    assert_eq!(high.checked_add_days(-4_294_967_295), Some(low));
}

#[test]
fn dates_are_ordered_as_the_calendar_is() {
    let a = Date::from_ymd(2019, 12, 31).unwrap();
    let b = Date::from_ymd(2020, 1, 1).unwrap();
    assert!(a < b);
    assert!(b > a);
    assert_ne!(a, b);
}

#[test]
fn parse_reads_year_month_and_day() {
    assert_eq!(Date::parse("2020-01-05"), Ok(Date::from_ymd(2020, 1, 5).unwrap()));
    assert_eq!(Date::parse("1999-09-03"), Ok(Date { days_from_ce: 730_000 }));
    assert_eq!(Date::parse("2020-02-29"), Ok(Date::from_ymd(2020, 2, 29).unwrap()));
    assert_eq!(Date::parse("2020-1-5"), Ok(Date::from_ymd(2020, 1, 5).unwrap()));
}

#[test]
fn parse_agrees_with_chrono() {
    let naive = NaiveDate::parse_from_str("2024-12-31", "%Y-%m-%d").unwrap();
    assert_eq!(Date::parse("2024-12-31").unwrap().days_from_ce, naive.num_days_from_ce());
}

#[test]
fn parse_refuses_what_is_no_date() {
    let message = |text: &str| Date::parse(text).unwrap_err().message;
    assert_eq!(message("2020-02-30"), "input is out of range");
    assert_eq!(message("2020-13-01"), "input is out of range");
    assert_eq!(message("next week"), "input contains invalid characters");
    assert_eq!(message("2020/01/05"), "input contains invalid characters");
    assert_eq!(message(""), "premature end of input");
    assert_eq!(message("2020-01"), "premature end of input");
    assert_eq!(message("2020-01-05 "), "trailing input");
    assert_eq!(message("2020-01-05T10:00"), "trailing input");
}

#[test]
fn parse_gives_the_error_that_chrono_gives() {
    let error = NaiveDate::parse_from_str("05.01.2020", "%Y-%m-%d").unwrap_err();
    assert_eq!(Date::parse("05.01.2020").unwrap_err().message, error.to_string());
}

#[test]
fn from_parsed_wraps_the_outcome() {
    assert_eq!(Date::from_parsed(Ok(12)), Ok(Date { days_from_ce: 12 }));
    assert_eq!(
        Date::from_parsed(Err("trailing input".to_string())),
        Err(InvalidDate { message: "trailing input".to_string() })
    );
}
