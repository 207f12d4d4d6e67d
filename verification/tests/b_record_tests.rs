use igc::records::{BRecord, Extendable, Extension, ExtensionRange, FixValid};
use igc::util::{Compass, RawLatitude, RawLongitude, RawPosition, Time};

#[test]
fn simple_brecord_parse() {
    // Only mandatory fields, no optional fields defined in I records.
    let sample_string = "B0941145152265N00032642WA00115-0116FooExtensionString";
    let parsed_record = BRecord::parse(sample_string).unwrap();
    let expected = BRecord {
        timestamp: Time::from_hms(9, 41, 14),
        pos: RawPosition {
            lat: RawLatitude::new(51, 52_265, Compass::North),
            lon: RawLongitude::new(0, 32_642, Compass::West),
        },
        fix_valid: FixValid::Valid,
        pressure_alt: 115,
        gps_alt: -116,
        extension_string: "FooExtensionString",
    };

    // Assert the fields individually first, to give better error messages
    // if they don't match.
    assert_eq!(parsed_record.timestamp, expected.timestamp);
    assert_eq!(parsed_record.pos.lat, expected.pos.lat);
    assert_eq!(parsed_record.pos.lon, expected.pos.lon);
    assert_eq!(parsed_record.fix_valid, expected.fix_valid);
    assert_eq!(parsed_record.pressure_alt, expected.pressure_alt);
    assert_eq!(parsed_record, expected);
}

#[test]
fn b_record_parse_with_invalid_char_boundary() {
    assert!(BRecord::parse("B\u{1f300}\u{ae}0  A\u{a1}\u{1e900}\u{10600} \u{10000}a0\u{2b98} \u{9c7}").is_err());
    assert!(BRecord::parse("BA\u{11a50} \u{2b820}A\u{1f030}\u{1107f}0\u{ae}A0\u{1f860}aaA\u{b9c}").is_err());
}

#[test]
fn simple_brecord_format() {
    let expected = "B0941145152265N00032642WA00115-0116FooExtensionString";
    let record = BRecord {
        timestamp: Time::from_hms(9, 41, 14),
        pos: RawPosition {
            lat: RawLatitude::new(51, 52_265, Compass::North),
            lon: RawLongitude::new(0, 32_642, Compass::West),
        },
        fix_valid: FixValid::Valid,
        pressure_alt: 115,
        gps_alt: -116,
        extension_string: "FooExtensionString",
    };

    assert_eq!(record.format(), expected);
}

#[test]
fn brecord_get_extension() {
    let record = BRecord {
        timestamp: Time::from_hms(9, 41, 14),
        pos: RawPosition {
            lat: RawLatitude::new(51, 52_265, Compass::North),
            lon: RawLongitude::new(0, 32_642, Compass::West),
        },
        fix_valid: FixValid::Valid,
        pressure_alt: 115,
        gps_alt: 116,
        extension_string: "0123456789",
    };

    let extension = Extension {
        range: ExtensionRange {
            start_byte: 36,
            end_byte: 40,
        },
        mnemonic: "FOO",
    };

    let extracted = record.get_extension(extension.range).unwrap();
    let expected = "01234";
    assert_eq!(extracted, expected);
}
