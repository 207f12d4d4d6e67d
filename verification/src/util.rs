//! General utility structures and functions

pub mod coord;
pub mod datetime;
pub mod manufacturer;
pub mod parse_error;
pub mod text;

pub use self::coord::Compass;
pub use self::coord::RawCoord;
pub use self::coord::RawLatitude;
pub use self::coord::RawLongitude;
pub use self::coord::RawPosition;
pub use self::datetime::Date;
pub use self::datetime::Time;
pub use self::manufacturer::Manufacturer;
pub use self::parse_error::ParseError;
