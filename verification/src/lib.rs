//! The MMC5 cartridge mapper and the APU volume envelope of a NES emulator,
//! with the byte-stack save-state format that they use.
pub mod save_load;
pub mod apu;
pub mod mmc;
