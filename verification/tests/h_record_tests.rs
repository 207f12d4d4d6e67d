use igc::records::{DataSource, HRecord};

#[test]
fn hrecord_parse() {
    let sample_string = "HFGIDGLIDERID:D-KOOL";
    let parsed_record = HRecord::parse(sample_string).unwrap();
    let expected = HRecord {
        data_source: DataSource::FVU,
        mnemonic: "GID",
        friendly_name: Some("GLIDERID"),
        data: "D-KOOL",
    };

    assert_eq!(parsed_record, expected);
}

#[test]
fn parse_with_missing_content() {
    assert!(HRecord::parse("H").is_err());
    assert!(HRecord::parse("HXXX").is_err());
}

#[test]
fn parse_with_early_colon() {
    assert_eq!(
        HRecord::parse("H:00 a ").unwrap(),
        HRecord {
            data_source: DataSource::Unrecognized(b':'),
            mnemonic: "00 ",
            friendly_name: None,
            data: "a ",
        }
    );

    assert_eq!(
        HRecord::parse("HAaA :a").unwrap(),
        HRecord {
            data_source: DataSource::Unrecognized(b'A'),
            mnemonic: "aA ",
            friendly_name: Some(""),
            data: "a",
        }
    );
}

#[test]
fn h_record_parse_with_invalid_char_boundary() {
    assert!(HRecord::parse("H\u{1107f}").is_err());
}

#[test]
fn hrecord_format() {
    let expected_string = "HFGIDGLIDERID:D-KOOL";
    let record = HRecord {
        data_source: DataSource::FVU,
        mnemonic: "GID",
        friendly_name: Some("GLIDERID"),
        data: "D-KOOL",
    };

    assert_eq!(record.format(), expected_string);
}
