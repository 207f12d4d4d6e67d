use igc::util::{Compass, RawLatitude, RawLongitude, RawPosition};

#[test]
fn raw_lat_parse() {
    assert_eq!(
        RawLatitude::new(51, 52_265, Compass::North),
        RawLatitude::parse("5152265N").unwrap()
    );

    assert_eq!(
        RawLatitude::new(51, 52_265, Compass::South),
        RawLatitude::parse("5152265S").unwrap()
    );
}

#[test]
fn raw_lat_parse_with_invalid_char_boundary() {
    assert!(RawLatitude::parse("ðŸŒ€aaaa").is_err());
}

#[test]
fn raw_coord_parse_lon() {
    assert_eq!(
        RawLongitude::new(51, 52_265, Compass::East),
        RawLongitude::parse("05152265E").unwrap()
    );

    assert_eq!(
        RawLongitude::new(51, 52_265, Compass::West),
        RawLongitude::parse("05152265W").unwrap()
    );
}

#[test]
fn raw_lon_parse_with_invalid_char_boundary() {
    assert!(RawLongitude::parse("ðŸŒ€aaaaa").is_err());
}

#[test]
fn raw_lat_format() {
    assert_eq!(RawLatitude::new(51, 23_355, Compass::North).format(), "5123355N");
    assert_eq!(RawLatitude::new(51, 23_355, Compass::South).format(), "5123355S");
}

#[test]
fn raw_lon_format() {
    assert_eq!(RawLongitude::new(51, 23_355, Compass::East).format(), "05123355E");
    assert_eq!(RawLongitude::new(51, 23_355, Compass::West).format(), "05123355W");
}

#[test]
fn parse_raw_position() {
    assert_eq!(
        RawPosition::parse("5152265N05152265W").unwrap(),
        RawPosition {
            lat: RawLatitude::new(51, 52_265, Compass::North),
            lon: RawLongitude::new(51, 52_265, Compass::West)
        }
    );
}

#[test]
fn parse_raw_position_with_invalid_char_boundary() {
    assert!(RawPosition::parse("ðŸŒ€ðŸŒ€ðŸŒ€ðŸŒ€a").is_err());
}
