use igc::records::{ARecord, Record};
use igc::util::Manufacturer;

#[test]
fn parse_empty_string() {
    assert!(Record::parse_line("").is_err());
}

#[test]
fn record_parse_line() {
    let rec = Record::parse_line("ACAMWatFoo").unwrap();
    assert_eq!(
        rec,
        Record::A(ARecord {
            manufacturer: Manufacturer::CambridgeAeroInstruments,
            unique_id: "Wat",
            id_extension: Some("Foo")
        })
    );
}

#[test]
fn record_parse_short_c_record() {
    assert!(Record::parse_line("C123").is_err());
}

#[test]
fn record_format() {
    let expected_str = "ACAMWatFoo";
    let rec = Record::A(ARecord {
        manufacturer: Manufacturer::CambridgeAeroInstruments,
        unique_id: "Wat",
        id_extension: Some("Foo"),
    });

    assert_eq!(rec.format(), expected_str);
}
