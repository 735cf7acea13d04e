//! The two data generators: the base64 codec and the UUID generator.

pub mod alphabet;
pub mod base64;
pub mod hex;
pub mod layout;
pub mod order;
pub mod text;
pub mod uuid;
