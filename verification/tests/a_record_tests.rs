use igc::records::ARecord;
use igc::util::Manufacturer;

#[test]
fn arecord_parse() {
    assert_eq!(
        ARecord::parse("ACAMWatFoo").unwrap(),
        ARecord::new(Manufacturer::CambridgeAeroInstruments, "Wat", Some("Foo"))
    );

    assert_eq!(
        ARecord::parse("ACAMWatFoo").unwrap(),
        ARecord::new(Manufacturer::CambridgeAeroInstruments, "Wat", Some("Foo"))
    );

    assert_eq!(
        ARecord::parse("AFLA6NG").unwrap(),
        ARecord::new(Manufacturer::Flarm, "6NG", None)
    );

    assert_eq!(
        ARecord::parse("AC00069").unwrap(),
        ARecord::new(Manufacturer::CambridgeAeroInstruments, "00069", None)
    );

    assert_eq!(
        ARecord::parse("ALXVK4AFLIGHT:1").unwrap(),
        ARecord::new(Manufacturer::LxNav, "K4A", Some("FLIGHT:1"))
    );

    assert_eq!(
        ARecord::parse("AFIL01460FLIGHT:1").unwrap(),
        ARecord::new(Manufacturer::Filser, "01460", Some("FLIGHT:1"))
    );

    assert_eq!(
        ARecord::parse("AX00000").unwrap(),
        ARecord::new(Manufacturer::UnknownSingle(b'X'), "00000", None)
    );

    assert_eq!(
        ARecord::parse("AXYZABC:foobar").unwrap(),
        ARecord::new(Manufacturer::UnknownTriple("XYZ"), "ABC", Some(":foobar"))
    );

    assert_eq!(
        ARecord::parse("AWIN000").unwrap(),
        ARecord::new(Manufacturer::UnknownTriple("WIN"), "000", None)
    );
}

#[test]
fn a_record_parse_with_invalid_char_boundary() {
    assert!(ARecord::parse("A0\u{a8a0}\u{fffc}").is_err());
}

#[test]
fn arecord_fmt() {
    assert_eq!(
        ARecord::new(Manufacturer::CambridgeAeroInstruments, "Wat", Some("Foo")).format(),
        "ACAMWatFoo"
    );
}
