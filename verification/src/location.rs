//! Where the application keeps its data.

pub mod home;
pub mod location;
pub mod store_path;

pub use self::home::HomeLocation;
pub use self::location::Location;
pub use self::store_path::StorePath;
