//! The standalone visibility debug view.
//!
//! A compute pass that colors pixels straight from the packed-id image,
//! without going through the material system; it shares the shading
//! dispatch's 8x8 tiling. Its settings mirror the debug material's but
//! offer no barycentric view, since this pass never reconstructs the
//! triangle.

use vstd::prelude::*;

verus! {

/// Threads per axis of one workgroup of the debug pass: 8x8 tiles.
pub const DEBUG_VISI_WG_SIZE: u32 = 8;

/// Number of debug view kinds of the standalone pass.
pub const VISI_DEBUG_TYPE_LEN: u32 = 4;

/// Which quantity the standalone debug pass colors pixels by.
#[derive(Copy, Clone, Debug, Default, Eq, PartialEq, Structural)]
pub enum DebugType {
    Disabled,
    #[default]
    ColorfulIds,
    InstanceId,
    TriangleId,
}

/// The wire form of a [`DebugType`].
pub open spec fn spec_debug_type_to_u32(t: DebugType) -> u32 {
    match t {
        DebugType::Disabled => 0,
        DebugType::ColorfulIds => 1,
        DebugType::InstanceId => 2,
        DebugType::TriangleId => 3,
    }
}

/// The debug view a wire value names; unknown values fall back to the
/// default view.
pub open spec fn spec_debug_type_from_u32(v: u32) -> DebugType {
    if v == 0 {
        DebugType::Disabled
    } else if v == 1 {
        DebugType::ColorfulIds
    } else if v == 2 {
        DebugType::InstanceId
    } else if v == 3 {
        DebugType::TriangleId
    } else {
        DebugType::ColorfulIds
    }
}

impl DebugType {
    /// Serializes for transfer to the GPU.
    pub fn write(self) -> (r: u32)
        ensures
            r == spec_debug_type_to_u32(self),
            r < VISI_DEBUG_TYPE_LEN,
    {
        match self {
            DebugType::Disabled => 0,
            DebugType::ColorfulIds => 1,
            DebugType::InstanceId => 2,
            DebugType::TriangleId => 3,
        }
    }

    /// Deserializes a GPU-provided value; total, with unknown values
    /// falling back to the default view.
    pub fn read(from: u32) -> (r: DebugType)
        ensures
            r == spec_debug_type_from_u32(from),
    {
        if from == 0 {
            DebugType::Disabled
        } else if from == 1 {
            DebugType::ColorfulIds
        } else if from == 2 {
            DebugType::InstanceId
        } else if from == 3 {
            DebugType::TriangleId
        } else {
            DebugType::ColorfulIds
        }
    }
}

} // verus!
