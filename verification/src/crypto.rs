//! Handling of sensitive material.

pub mod buffer;

pub use self::buffer::{CryptoBuffer, DestructiveFrom};
