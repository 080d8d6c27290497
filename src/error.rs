//! Error types handed back by stubbed methods.
use vstd::prelude::*;

verus! {

/// Error type that is returned by stubbed methods.
#[derive(PartialEq, Eq, Structural, Clone, Copy, Debug)]
pub enum TestError {
    /// This error can be raised as part of a test.
    StubbedError,
}

} // verus!
