//! Output mode selection for the measuring harness around the library.

use vstd::prelude::*;

verus! {

/// How a caller wants results rendered: comma-separated rows or
/// human-readable text.
#[derive(Clone, Copy, Debug)]
pub enum OutputMode {
    Csv,
    Pretty,
}

impl OutputMode {
    /// True exactly on the comma-separated mode.
    pub fn is_csv(self) -> (r: bool)
        ensures
            r == (self is Csv),
    {
        match self {
            OutputMode::Csv => true,
            _ => false,
        }
    }

    /// True exactly on the human-readable mode.
    pub fn is_pretty(self) -> (r: bool)
        ensures
            r == (self is Pretty),
    {
        match self {
            OutputMode::Pretty => true,
            _ => false,
        }
    }
}

} // verus!
