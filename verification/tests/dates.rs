use curator::date::{parse_date, Date};
use curator::error::Error;
use curator::history::RecordError;

#[test]
fn date_encodes_zero_padded() {
    let d = Date::checked(2020, 9, 28).expect("a valid date");
    assert_eq!(d.encode(), "2020-09-28");
    let d2 = Date::checked(33, 1, 2).expect("a valid date");
    assert_eq!(d2.encode(), "0033-01-02");
}

#[test]
fn date_round_trips() {
    let d = Date::checked(1999, 12, 31).expect("a valid date");
    assert_eq!(parse_date(&d.encode()), Some(d));
}

#[test]
fn bad_date_strings_do_not_parse() {
    assert_eq!(parse_date("2020-13-01"), None);
    assert_eq!(parse_date("2020-00-01"), None);
    assert_eq!(parse_date("2020-02-30"), None);
    assert_eq!(parse_date("20-01-01"), None);
    assert_eq!(parse_date("2020/01/01"), None);
}

#[test]
fn leap_years_are_respected() {
    assert!(Date::checked(2020, 2, 29).is_some());
    assert!(Date::checked(2021, 2, 29).is_none());
    assert!(Date::checked(2000, 2, 29).is_some());
    assert!(Date::checked(1900, 2, 29).is_none());
}

#[test]
fn today_is_a_valid_encoding() {
    let d = Date::today();
    assert_eq!(parse_date(&d.encode()), Some(d));
}

#[test]
fn errors_carry_their_messages() {
    let e = Error::new("it broke");
    assert_eq!(e.message(), "it broke");
    assert_eq!(e, Error::new("it broke"));

    assert_eq!(
        RecordError::MissingTitle.message(),
        "'title' is a required field"
    );
    assert_eq!(
        RecordError::MissingSummary.message(),
        "'summary' is a required field"
    );
}
