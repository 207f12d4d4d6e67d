//! Concrete checks of the library's stated properties: byte-for-byte
//! round trips for every record kind, the kind heuristics, the extension
//! arithmetic, and each error variant.

use igc::records::{
    DataSource, Extendable, ExtensionRange, GpsQualifier, Record,
};
use igc::util::{ParseError, Time};

fn assert_round_trips(line: &str) {
    let record = Record::parse_line(line).unwrap();
    let formatted = record.format();
    assert_eq!(formatted, line);
    let reparsed = Record::parse_line(formatted.as_str()).unwrap();
    assert_eq!(reparsed, record);
}

#[test]
fn round_trip_every_kind() {
    assert_round_trips("AFIL01460FLIGHT:1");
    assert_round_trips("AXYZABC:foobar");
    assert_round_trips("B0941145152265N00032642WA00115-0116FooExtensionString");
    assert_round_trips("C230718092044000000000204Foo task");
    assert_round_trips("C1005091201531005090001-2");
    assert_round_trips("C5156040N00038120WLBZ-Leighton Buzzard NE");
    assert_round_trips("D1ABCD");
    assert_round_trips("D2WXYZ");
    assert_round_trips("E120515FOOText");
    assert_round_trips("F095212AABBCCDDEE");
    assert_round_trips("F135456");
    assert_round_trips("GSECURITYSIGNATURE");
    assert_round_trips("G");
    assert_round_trips("HFGIDGLIDERID:D-KOOL");
    assert_round_trips("HFDTE250809");
    assert_round_trips("I033638FXA3941ENL4246TAS");
    assert_round_trips("I00");
    assert_round_trips("J010812HDT");
    assert_round_trips("K095214FooTheBar");
    assert_round_trips("K095214");
    assert_round_trips("LFoo the bar");
    assert_round_trips("L");
    assert_round_trips("XSOMETHING UNKNOWN");
}

#[test]
fn round_trip_single_char_vendor_value() {
    // The oldest layout re-renders through the vendor's three-letter
    // code, so the value (not the text) round-trips.
    let record = Record::parse_line("AC00069").unwrap();
    let formatted = record.format();
    assert_eq!(formatted, "ACAM00069");
    let reparsed = Record::parse_line(formatted.as_str()).unwrap();
    assert_eq!(reparsed, record);
}

#[test]
fn kind_c_disambiguation() {
    let turnpoint = Record::parse_line("C5156040N00038120WLBZ-Leighton Buzzard NE").unwrap();
    assert!(matches!(turnpoint, Record::CTurnpoint(_)));

    let declaration = Record::parse_line("C230718092044000000000204Foo task").unwrap();
    assert!(matches!(declaration, Record::CDeclaration(_)));
}

#[test]
fn kind_a_legacy_heuristics() {
    match Record::parse_line("AC00069").unwrap() {
        Record::A(a) => {
            assert_eq!(a.manufacturer.to_single_char(), Some(b'C'));
            assert_eq!(a.unique_id, "00069");
            assert_eq!(a.id_extension, None);
        }
        _ => panic!("expected an A record"),
    }

    match Record::parse_line("AFIL01460FLIGHT:1").unwrap() {
        Record::A(a) => {
            assert_eq!(a.manufacturer.to_triple_char(), Some("FIL"));
            assert_eq!(a.unique_id, "01460");
            assert_eq!(a.id_extension, Some("FLIGHT:1"));
        }
        _ => panic!("expected an A record"),
    }

    match Record::parse_line("ACAMWatFoo").unwrap() {
        Record::A(a) => {
            assert_eq!(a.manufacturer.to_triple_char(), Some("CAM"));
            assert_eq!(a.unique_id, "Wat");
            assert_eq!(a.id_extension, Some("Foo"));
        }
        _ => panic!("expected an A record"),
    }
}

#[test]
fn extension_set_parsing() {
    match Record::parse_line("I033638FXA3941ENL4246TAS").unwrap() {
        Record::I(i) => {
            assert_eq!(i.num_extensions, 3);
            assert_eq!(i.extensions.len(), 3);
            assert_eq!(i.extensions[0].range.start_byte, 36);
            assert_eq!(i.extensions[0].range.end_byte, 38);
            assert_eq!(i.extensions[0].mnemonic, "FXA");
            assert_eq!(i.extensions[1].range.start_byte, 39);
            assert_eq!(i.extensions[1].range.end_byte, 41);
            assert_eq!(i.extensions[1].mnemonic, "ENL");
            assert_eq!(i.extensions[2].range.start_byte, 42);
            assert_eq!(i.extensions[2].range.end_byte, 46);
            assert_eq!(i.extensions[2].mnemonic, "TAS");
        }
        _ => panic!("expected an I record"),
    }
}

#[test]
fn extension_arithmetic() {
    // A B record has a mandatory region of 35 columns; its extensions
    // address the tail with 1-indexed whole-line columns.
    let line = "B0941145152265N00032642WA00115-0116FooTheBar";
    let record = match Record::parse_line(line).unwrap() {
        Record::B(b) => b,
        _ => panic!("expected a B record"),
    };
    assert_eq!(record.extension_string(), "FooTheBar");

    let foo = ExtensionRange { start_byte: 36, end_byte: 38 };
    let the = ExtensionRange { start_byte: 39, end_byte: 41 };
    let bar = ExtensionRange { start_byte: 42, end_byte: 44 };
    assert_eq!(record.get_extension(foo).unwrap(), "Foo");
    assert_eq!(record.get_extension(the).unwrap(), "The");
    assert_eq!(record.get_extension(bar).unwrap(), "Bar");

    // A range that starts inside the mandatory region is rejected.
    let inside = ExtensionRange { start_byte: 8, end_byte: 10 };
    assert_eq!(record.get_extension(inside), Err(ParseError::BadExtension));
    let boundary = ExtensionRange { start_byte: 35, end_byte: 40 };
    assert_eq!(record.get_extension(boundary), Err(ParseError::BadExtension));

    // A range beyond the actual tail is reported missing.
    let past = ExtensionRange { start_byte: 50, end_byte: 52 };
    assert_eq!(record.get_extension(past), Err(ParseError::MissingExtension));
    let overhang = ExtensionRange { start_byte: 42, end_byte: 60 };
    assert_eq!(record.get_extension(overhang), Err(ParseError::MissingExtension));
}

#[test]
fn range_validity() {
    // end < start always fails as BadExtension, wherever it appears.
    assert_eq!(
        ExtensionRange::parse("1005"),
        Err(ParseError::BadExtension)
    );
    assert_eq!(
        igc::records::Extension::parse("1005FXA").unwrap_err(),
        ParseError::BadExtension
    );
    let line = "B0941145152265N00032642WA00115-0116FooTheBar";
    let record = match Record::parse_line(line).unwrap() {
        Record::B(b) => b,
        _ => panic!("expected a B record"),
    };
    let backwards = ExtensionRange { start_byte: 40, end_byte: 38 };
    assert_eq!(record.get_extension(backwards), Err(ParseError::BadExtension));
    assert!(Record::parse_line("I011005FXA").is_err());
}

#[test]
fn no_panic_on_arbitrary_input() {
    let inputs = [
        "",
        "B",
        "\u{1f300}",
        "A",
        "C",
        "CC",
        "C12345678",
        "K1234567",
        "I99",
        "Iaa",
        "D\u{1f300}x",
        "H:::::",
        "B999999xxxxxxxxxxxxxxxxxZ9999999999",
        "\0\0\0",
        "ACAM\u{1f300}",
        "E123456FOO\u{1f300}tail",
    ];
    for input in inputs.iter() {
        let _ = Record::parse_line(input);
    }
}

#[test]
fn time_boundary_values_kept() {
    // The format tolerates 24/60/60 as sentinel-like upper bounds; the
    // decoder deliberately keeps that laxity.
    assert_eq!(Time::parse("246060").unwrap(), Time::from_hms(24, 60, 60));
    assert_eq!(
        Time::parse("256060").unwrap_err(),
        ParseError::NumberOutOfRange
    );
    assert_eq!(
        Time::parse("246160").unwrap_err(),
        ParseError::NumberOutOfRange
    );
    assert_eq!(
        Time::parse("246061").unwrap_err(),
        ParseError::NumberOutOfRange
    );
}

#[test]
fn error_variants() {
    assert_eq!(Time::parse("01a345").unwrap_err(), ParseError::SyntaxError);
    assert_eq!(
        Time::parse("01234\u{e9}").unwrap_err(),
        ParseError::NonASCIICharacters
    );
    assert_eq!(
        igc::util::RawLatitude::parse("9952265N").unwrap_err(),
        ParseError::NumberOutOfRange
    );
    assert_eq!(
        igc::util::RawLatitude::parse("5152265X").unwrap_err(),
        ParseError::SyntaxError
    );
    assert_eq!(
        Record::parse_line("").unwrap_err(),
        ParseError::SyntaxError
    );
}

#[test]
fn d_record_fallback_qualifier() {
    let parsed = match Record::parse_line("D3ABCD").unwrap() {
        Record::D(d) => d,
        _ => panic!("expected a D record"),
    };
    assert_eq!(parsed.qualifier, GpsQualifier::Unrecognized(b'3'));
    assert_eq!(parsed.station_id, "ABCD");
    assert_round_trips("D3ABCD");
}

#[test]
fn h_record_source_fallback() {
    let parsed = match Record::parse_line("HXABCdata").unwrap() {
        Record::H(h) => h,
        _ => panic!("expected an H record"),
    };
    assert_eq!(parsed.data_source, DataSource::Unrecognized(b'X'));
    assert_round_trips("HXABCdata");
}

#[test]
fn b_record_altitude_boundaries() {
    // Five digits up to the signed sixteen-bit maximum decode; larger
    // values are syntax errors, as is an empty sign.
    let ok = "B0941145152265N00032642WA3276732767";
    let record = match Record::parse_line(ok).unwrap() {
        Record::B(b) => b,
        _ => panic!("expected a B record"),
    };
    assert_eq!(record.pressure_alt, 32767);
    assert_eq!(record.gps_alt, 32767);
    assert_round_trips(ok);
    assert_round_trips("B0941145152265N00032642WA-9999-9999");
    assert_eq!(
        Record::parse_line("B0941145152265N00032642WA3276832767").unwrap_err(),
        ParseError::SyntaxError
    );
    assert_eq!(
        Record::parse_line("B0941145152265N00032642WA-----00115").unwrap_err(),
        ParseError::SyntaxError
    );
}

#[test]
fn k_record_empty_tail() {
    // The K tail is optional: a bare time decodes to an empty tail, and
    // only a line too short for the time field is malformed.
    let record = match Record::parse_line("K095214").unwrap() {
        Record::K(k) => k,
        _ => panic!("expected a K record"),
    };
    assert_eq!(record.time, Time::from_hms(9, 52, 14));
    assert_eq!(record.extension_string, "");
    assert_eq!(
        Record::parse_line("K09521").unwrap_err(),
        ParseError::SyntaxError
    );
}

#[test]
fn extension_def_non_ascii_line() {
    // A non-single-byte character anywhere in an I or J line is an
    // encoding error, not a syntax error.
    assert_eq!(
        Record::parse_line("I01\u{e9}63638FXA").unwrap_err(),
        ParseError::NonASCIICharacters
    );
    assert_eq!(
        Record::parse_line("J01\u{e9}63638FXA").unwrap_err(),
        ParseError::NonASCIICharacters
    );
}

#[test]
fn format_renders_every_decoded_record() {
    // A vendor recorded by its single-letter code has no three-letter
    // rendering, so its line re-renders without a vendor code; the
    // top-level formatter still accepts the decoded value.
    let record = Record::parse_line("AX00000").unwrap();
    assert_eq!(record.format(), "A00000");
}

#[test]
fn extension_def_count_must_match() {
    // The declared count must match the definitions exactly.
    assert_eq!(
        Record::parse_line("I023638FXA3941ENL4246TAS").unwrap_err(),
        ParseError::SyntaxError
    );
    assert_eq!(
        Record::parse_line("I043638FXA3941ENL4246TAS").unwrap_err(),
        ParseError::SyntaxError
    );
}
