use igc::records::{CRecordDeclaration, CRecordTurnpoint};
use igc::util::{Compass, Date, RawLatitude, RawLongitude, RawPosition, Time};

#[test]
fn c_record_declaration_parse() {
    let sample_string = "C230718092044000000000204Foo task";
    let parsed_declaration = CRecordDeclaration::parse(sample_string).unwrap();
    let mut expected = CRecordDeclaration {
        date: Date::from_dmy(23, 07, 18),
        time: Time::from_hms(09, 20, 44),
        flight_date: Date {
            day: 00,
            month: 00,
            year: 00,
        },
        task_id: 2,
        turnpoint_count: 4,
        task_name: Some("Foo task"),
    };
    assert_eq!(parsed_declaration, expected);

    let sample_string = "C230718092044000000000204";
    let parsed_declaration = CRecordDeclaration::parse(sample_string).unwrap();
    expected.task_name = None;
    assert_eq!(parsed_declaration, expected);
}

#[test]
fn c_record_declaration_parse_with_missing_content() {
    assert!(CRecordDeclaration::parse("C").is_err());
}

#[test]
fn c_record_declaration_parse_with_invalid_char_boundary() {
    assert!(CRecordDeclaration::parse("C\u{11800}\u{16b7d}\u{2090}\u{1ee27}\u{1daa1}").is_err());
}

#[test]
fn c_record_declaration_format() {
    let expected_string = "C230718092044000000000204Foo task";
    let mut declaration = CRecordDeclaration {
        date: Date::from_dmy(23, 07, 18),
        time: Time::from_hms(09, 20, 44),
        flight_date: Date {
            day: 00,
            month: 00,
            year: 00,
        },
        task_id: 2,
        turnpoint_count: 4,
        task_name: Some("Foo task"),
    };
    assert_eq!(declaration.format(), expected_string);

    let expected_string = "C230718092044000000000204";
    declaration.task_name = None;
    assert_eq!(declaration.format(), expected_string);
}

/// Filser LX5000 records `turnpoint_count: -2` when no task has been
/// declared.
#[test]
fn c_record_declaration_format_with_negative_tp_count() {
    let declaration = CRecordDeclaration {
        date: Date::from_dmy(10, 05, 09),
        time: Time::from_hms(12, 01, 53),
        flight_date: Date::from_dmy(10, 05, 09),
        task_id: 1,
        turnpoint_count: -2,
        task_name: None,
    };
    assert_eq!(declaration.format(), "C1005091201531005090001-2");
}

#[test]
fn c_record_turnpoint_parse() {
    let sample_string = "C5156040N00038120WLBZ-Leighton Buzzard NE";
    let parsed_turnpoint = CRecordTurnpoint::parse(sample_string).unwrap();
    let expected = CRecordTurnpoint {
        position: RawPosition {
            lat: RawLatitude::new(51, 56_040, Compass::North),
            lon: RawLongitude::new(0, 38_120, Compass::West),
        },
        turnpoint_name: Some("LBZ-Leighton Buzzard NE"),
    };

    assert_eq!(parsed_turnpoint, expected);
}

#[test]
fn c_record_turnpoint_parse_with_missing_content() {
    assert!(CRecordTurnpoint::parse("C").is_err());
}

#[test]
fn c_record_turnpoint_parse_with_invalid_char_boundary() {
    assert!(CRecordTurnpoint::parse("C\u{11800}\u{16b7d}\u{2090}\u{1ee27}\u{1daa1}").is_err());
}
