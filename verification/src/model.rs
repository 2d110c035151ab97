//! The data model that instances exchange.

pub mod changelog;
pub mod codec;

pub use self::changelog::{Changelog, SimpleChangelog};
