//! Programmable stubs for embedded-hal traits, driven by a verified engine of canned responses.
pub mod blocking;
pub mod error;
pub mod responses;
