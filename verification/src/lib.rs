//! Verified core of the Firefly Zero main-chip firmware: colour encoding for
//! the ILI9488 panel, the panel's address windows and pixel packing, the DMA
//! buffer pool that feeds the i8080 bus, and the small decisions the firmware
//! makes while it boots and runs.
pub mod color;
pub mod commands;
pub mod display;
pub mod firmware;
pub mod stream;
pub mod writer;
