use igc::records::{DRecord, ERecord, FRecord, GpsQualifier, SatelliteArray};
use igc::util::Time;

#[test]
fn drecord_parse() {
    let example_line = "D1ABCD";
    let parsed = DRecord::parse(example_line).unwrap();
    let expected = DRecord {
        qualifier: GpsQualifier::Gps,
        station_id: "ABCD",
    };

    assert_eq!(parsed, expected);
}

#[test]
fn erecord_parse() {
    let example_line = "E120515FOOText";
    let parsed = ERecord::parse(example_line).unwrap();
    let expected = ERecord {
        time: Time::from_hms(12, 5, 15),
        mnemonic: "FOO",
        text: Some("Text"),
    };

    assert_eq!(parsed, expected);
}

#[test]
fn e_record_parse_with_invalid_char_boundary() {
    assert!(ERecord::parse("E\u{e2}\u{b6}\u{a0}\u{f0}\u{2018}\u{203a}\u{20ac}  ").is_err());
}

#[test]
fn erecord_format() {
    let expected_string = "E120515FOOText";
    let record = ERecord {
        time: Time::from_hms(12, 5, 15),
        mnemonic: "FOO",
        text: Some("Text"),
    };

    assert_eq!(record.format(), expected_string);
}

#[test]
fn frecord_parse() {
    let sample_string = "F095212AABBCCDDEE";
    let parsed_record = FRecord::parse(sample_string).unwrap();
    let expected_record = FRecord {
        time: Time::from_hms(9, 52, 12),
        satellites: SatelliteArray::new("AABBCCDDEE"),
    };

    assert_eq!(parsed_record, expected_record);
}

#[test]
fn frecord_parse_empty() {
    let sample_string = "F135456";
    let parsed_record = FRecord::parse(sample_string).unwrap();
    let expected_record = FRecord {
        time: Time::from_hms(13, 54, 56),
        satellites: SatelliteArray::new(""),
    };

    assert_eq!(parsed_record, expected_record);
}

#[test]
fn f_record_parse_with_invalid_char_boundary() {
    assert!(FRecord::parse("F\u{12b2}\u{1260}\u{19de}").is_err());
}

#[test]
fn satellite_iter() {
    let satellite_array = SatelliteArray::new("AABBCCDDEE");
    let mut iter = satellite_array.iter();
    let mut collected: Vec<&str> = Vec::new();
    while let Some(id) = iter.next() {
        collected.push(id);
    }
    assert_eq!(vec!["AA", "BB", "CC", "DD", "EE"], collected);
}

#[test]
fn frecord_format() {
    let expected_string = "F095212AABBCCDDEE";
    let record = FRecord {
        time: Time::from_hms(9, 52, 12),
        satellites: SatelliteArray::new("AABBCCDDEE"),
    };

    assert_eq!(record.format(), expected_string);
}
