use igc::records::{Extendable, Extension, ExtensionRange, KRecord, LRecord};
use igc::util::Time;

#[test]
fn krecord_parse() {
    let sample_string = "K095214FooTheBar";
    let parsed = KRecord::parse(sample_string).unwrap();
    let expected = KRecord {
        time: Time::from_hms(9, 52, 14),
        extension_string: "FooTheBar",
    };

    assert_eq!(parsed, expected);
}

#[test]
fn krecord_format() {
    let expected_string = "K095214FooTheBar";
    let record = KRecord {
        time: Time::from_hms(9, 52, 14),
        extension_string: "FooTheBar",
    };

    assert_eq!(record.format(), expected_string);
}

#[test]
fn krecord_extensions() {
    let record = KRecord {
        time: Time::from_hms(9, 52, 14),
        extension_string: "FooTheBar",
    };
    let ext1 = Extension {
        range: ExtensionRange {
            start_byte: 8,
            end_byte: 10,
        },
        mnemonic: "One",
    };
    let ext2 = Extension {
        range: ExtensionRange {
            start_byte: 11,
            end_byte: 13,
        },
        mnemonic: "Two",
    };
    let ext3 = Extension {
        range: ExtensionRange {
            start_byte: 14,
            end_byte: 16,
        },
        mnemonic: "Th3",
    };

    assert_eq!(record.get_extension(ext1.range).unwrap(), "Foo");
    assert_eq!(record.get_extension(ext2.range).unwrap(), "The");
    assert_eq!(record.get_extension(ext3.range).unwrap(), "Bar");
}

#[test]
fn lrecord_parse() {
    let sample_string = "LFoo the bar";
    let parsed = LRecord::parse(sample_string).unwrap();
    let expected = LRecord {
        log_string: "Foo the bar",
    };

    assert_eq!(parsed, expected);
}

#[test]
fn lrecord_format() {
    let expected_string = "LFoo the bar";
    let record = LRecord {
        log_string: "Foo the bar",
    };

    assert_eq!(record.format(), expected_string);
}
