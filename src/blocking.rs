//! Stubs for the blocking embedded-hal traits.
pub mod spi;
