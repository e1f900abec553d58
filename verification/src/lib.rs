//! Memory layout resolution for firmware images.
//!
//! The sections of a compiled image are matched with the memory regions that a
//! linker script declares, small sections are folded into one entry per
//! region, structural edits are applied in order, and each section is given
//! its change in bytes since the previous build.

pub mod aggregate;
pub mod correlate;
pub mod diff;
pub mod display;
pub mod drain;
pub mod edit;
pub mod find;
pub mod layout;
pub mod region;
pub mod script;
pub mod size;
pub mod total;
