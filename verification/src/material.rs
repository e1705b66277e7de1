//! The debug material and its settings.
//!
//! The debug material is the simplest material model: it carries no data
//! of its own, and its evaluator colors pixels from the decoded instance
//! and triangle ids. Like every material model it is registered with the
//! dynamic buffer tag registry and recovered through its tag at shading
//! time. Color math is floating-point work of the shading stage; the
//! mix factor is carried as raw IEEE-754 bits.

use crate::view_range::DebugValueRange;
use vstd::prelude::*;

verus! {

/// Number of debug view kinds.
pub const DEBUG_TYPE_LEN: u32 = 5;

/// The IEEE-754 bits of one: the default color mix.
pub const FULL_MIX_BITS: u32 = 0x3F80_0000;

/// The material model of the debug material: no data beyond its tag.
#[derive(Copy, Clone, Debug, Default, Eq, PartialEq, Structural)]
pub struct DebugMaterial {
    pub _dummy: u32,
}

/// Which quantity the debug view colors pixels by.
#[derive(Copy, Clone, Debug, Default, Eq, PartialEq, Structural)]
pub enum DebugType {
    Disabled,
    #[default]
    ColorfulIds,
    InstanceId,
    TriangleId,
    Barycentrics,
}

/// The wire form of a [`DebugType`].
pub open spec fn spec_debug_type_to_u32(t: DebugType) -> u32 {
    match t {
        DebugType::Disabled => 0,
        DebugType::ColorfulIds => 1,
        DebugType::InstanceId => 2,
        DebugType::TriangleId => 3,
        DebugType::Barycentrics => 4,
    }
}

/// The debug view a wire value names; unknown values fall back to the
/// default view.
pub open spec fn spec_debug_type_from_u32(v: u32) -> DebugType {
    if v == 0 {
        DebugType::Disabled
    } else if v == 1 {
        DebugType::ColorfulIds
    } else if v == 2 {
        DebugType::InstanceId
    } else if v == 3 {
        DebugType::TriangleId
    } else if v == 4 {
        DebugType::Barycentrics
    } else {
        DebugType::ColorfulIds
    }
}

impl DebugType {
    /// Serializes for transfer to the GPU.
    pub fn write(self) -> (r: u32)
        ensures
            r == spec_debug_type_to_u32(self),
            r < DEBUG_TYPE_LEN,
    {
        match self {
            DebugType::Disabled => 0,
            DebugType::ColorfulIds => 1,
            DebugType::InstanceId => 2,
            DebugType::TriangleId => 3,
            DebugType::Barycentrics => 4,
        }
    }

    /// Deserializes a GPU-provided value; total, with unknown values
    /// falling back to the default view.
    pub fn read(from: u32) -> (r: DebugType)
        ensures
            r == spec_debug_type_from_u32(from),
    {
        if from == 0 {
            DebugType::Disabled
        } else if from == 1 {
            DebugType::ColorfulIds
        } else if from == 2 {
            DebugType::InstanceId
        } else if from == 3 {
            DebugType::TriangleId
        } else if from == 4 {
            DebugType::Barycentrics
        } else {
            DebugType::ColorfulIds
        }
    }
}

/// What the debug evaluator shades with: the view kind, the color mix
/// factor as raw IEEE-754 bits, and the id value range of the view.
#[derive(Copy, Clone, Debug, Eq, PartialEq, Structural)]
pub struct DebugSettings {
    pub debug_type: DebugType,
    pub debug_mix_bits: u32,
    pub view_range: DebugValueRange,
}

impl Default for DebugSettings {
    fn default() -> (r: Self)
        ensures
            r.debug_type == DebugType::ColorfulIds,
            r.debug_mix_bits == FULL_MIX_BITS,
            r.view_range.min == 0,
            r.view_range.max == 32,
            r.view_range.wrap,
    {
        DebugSettings {
            debug_type: DebugType::ColorfulIds,
            debug_mix_bits: FULL_MIX_BITS,
            view_range: DebugValueRange { min: 0, max: 32, wrap: true },
        }
    }
}

} // verus!
