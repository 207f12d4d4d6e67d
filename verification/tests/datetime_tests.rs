use igc::util::{Date, Time};

#[test]
fn time_parse() {
    assert_eq!(Time::parse("012345").unwrap(), Time::from_hms(1, 23, 45));
    assert_eq!(Time::parse("152136").unwrap(), Time::from_hms(15, 21, 36));
}

#[test]
fn time_parse_with_invalid_char_boundary() {
    assert!(Time::parse("\u{1f300}aa").is_err());
}

#[test]
fn time_fmt() {
    assert_eq!(Time::from_hms(1, 23, 45).format(), "012345");
}

#[test]
fn time_seconds_since_midnight() {
    assert_eq!(
        Time {
            hours: 0,
            minutes: 0,
            seconds: 0
        }
        .seconds_since_midnight(),
        0
    );
    assert_eq!(
        Time {
            hours: 1,
            minutes: 2,
            seconds: 3
        }
        .seconds_since_midnight(),
        3600 + 120 + 3
    );
}

#[test]
fn date_parse() {
    assert_eq!(Date::parse("010118").unwrap(), Date::from_dmy(1, 1, 18));
    assert_eq!(Date::parse("120757").unwrap(), Date::from_dmy(12, 7, 57));
}

#[test]
fn date_parse_with_invalid_char_boundary() {
    assert!(Date::parse("\u{1f300}aa").is_err());
}

#[test]
fn date_fmt() {
    assert_eq!(Date::from_dmy(5, 10, 18).format(), "051018");
}
