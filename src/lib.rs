//! A CHIP-8 interpreter core: processor state, instruction decoding and
//! execution, the monochrome display surface and the dual-rate clock.
pub mod utils;
pub mod graphics;
pub mod processor;
pub mod execution;
pub mod loader;
pub mod clock;
pub mod theorems;
