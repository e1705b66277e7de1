//! The value range a debug view maps ids into.
//!
//! The range is plain integer configuration; the mapping itself is
//! floating-point arithmetic that the shading stage performs per pixel.

use vstd::prelude::*;

verus! {

/// The half-open value range a debug view normalizes into, and whether
/// values outside it wrap around or saturate.
#[derive(Copy, Clone, Debug, Eq, PartialEq, Structural)]
pub struct DebugValueRange {
    pub min: i32,
    pub max: i32,
    pub wrap: bool,
}

impl Default for DebugValueRange {
    fn default() -> (r: Self)
        ensures
            r.min == 0,
            r.max == 32,
            r.wrap,
    {
        DebugValueRange { min: 0, max: 32, wrap: true }
    }
}

} // verus!
