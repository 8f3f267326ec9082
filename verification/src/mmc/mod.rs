//! Cartridge mappers.
pub mod mmc5;
pub mod mmc5_laws;
