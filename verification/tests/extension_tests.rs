use igc::records::{Extension, ExtensionDefRecord, ExtensionRange, IRecord, JRecord};

#[test]
fn extensiondefrecord_parse() {
    let sample_string = "I033638FXA3941ENL4246TAS";
    let parsed_record = ExtensionDefRecord::parse(sample_string).unwrap();
    let expected = ExtensionDefRecord {
        num_extensions: 3,
        extensions: vec![
            Extension {
                range: ExtensionRange {
                    start_byte: 36,
                    end_byte: 38,
                },
                mnemonic: "FXA",
            },
            Extension {
                range: ExtensionRange {
                    start_byte: 39,
                    end_byte: 41,
                },
                mnemonic: "ENL",
            },
            Extension {
                range: ExtensionRange {
                    start_byte: 42,
                    end_byte: 46,
                },
                mnemonic: "TAS",
            },
        ],
    };

    assert_eq!(parsed_record, expected);
}

#[test]
fn extension_parse_with_invalid_char_boundary() {
    assert!(ExtensionDefRecord::parse("I\u{1107f}").is_err());
}

#[test]
fn irecord_parse() {
    let sample_string = "I033638FXA3941ENL4246TAS";
    let parsed_record = IRecord::parse(sample_string).unwrap();
    let expected = IRecord {
        num_extensions: 3,
        extensions: vec![
            Extension {
                range: ExtensionRange {
                    start_byte: 36,
                    end_byte: 38,
                },
                mnemonic: "FXA",
            },
            Extension {
                range: ExtensionRange {
                    start_byte: 39,
                    end_byte: 41,
                },
                mnemonic: "ENL",
            },
            Extension {
                range: ExtensionRange {
                    start_byte: 42,
                    end_byte: 46,
                },
                mnemonic: "TAS",
            },
        ],
    };

    assert_eq!(parsed_record, expected);
}

#[test]
fn jrecord_format() {
    let expected_string = "J033638FXA3941ENL4246TAS";
    let record = JRecord(ExtensionDefRecord {
        num_extensions: 3,
        extensions: vec![
            Extension::new("FXA", 36, 38),
            Extension::new("ENL", 39, 41),
            Extension::new("TAS", 42, 46),
        ],
    });

    assert_eq!(record.format(), expected_string);
}
