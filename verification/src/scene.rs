//! The GPU-resident scene graph.
//!
//! A scene holds a strong reference to its instance array plus the camera
//! parameters; each instance holds a strong reference to its model plus a
//! world transform. The graph is built once per frame by a CPU-side
//! accumulator, uploaded into the descriptor table as immutable buffers,
//! consumed read-only by the raster and shading passes, and replaced the
//! following frame.
//!
//! The descriptor table is heterogeneous: each slot holds one
//! [`BufferPayload`]. A reference is typed only by the invariants the scene
//! graph maintains, stated as the `wf` spec functions below, so every load
//! along the instance → model → triangle/vertex chain is proved to find the
//! payload kind it expects.
//!
//! Interpolation weights and transforms are floating-point data that the
//! scene graph carries but never reads; they are stored as raw IEEE-754
//! bit patterns and given meaning by the shading stage.

use crate::descriptor::{DescriptorTable, StrongDesc};
use crate::dyn_buffer::DynBuffer;
use crate::id::InstanceId;
use vstd::prelude::*;

verus! {

/// A 3x4 affine transform, column-major, as raw IEEE-754 bit patterns.
/// The scene graph carries it opaquely; only the vertex stage reads it.
#[derive(Copy, Clone, Debug)]
pub struct AffineTransform(pub [u32; 12]);

/// Camera parameters consumed by the two passes: a world-to-clip transform
/// carried as raw IEEE-754 bit patterns, and the viewport size in pixels.
#[derive(Copy, Clone, Debug)]
pub struct Camera {
    pub clip_from_world: [u32; 16],
    pub viewport_width: u32,
    pub viewport_height: u32,
}

/// Per-instance data besides the model reference: the world transform.
#[derive(Copy, Clone, Debug)]
pub struct InstanceInfo {
    pub world_from_local: AffineTransform,
}

/// One drawn occurrence of a model within the scene.
#[derive(Copy, Clone)]
pub struct Instance {
    /// Names a [`BufferPayload::ModelData`] slot.
    pub model: StrongDesc<BufferPayload>,
    pub info: InstanceInfo,
}

impl Instance {
    /// The instance names a live model header whose own buffers are live
    /// and linked.
    pub open spec fn wf(self, table: DescriptorTable<BufferPayload>) -> bool {
        &&& table.strong_valid(self.model)
        &&& self.model.spec_content() is ModelData
        &&& self.model.spec_content()->ModelData_0.wf(table)
    }
}

/// The root of the per-frame scene graph.
#[derive(Copy, Clone)]
pub struct Scene {
    /// Names a [`BufferPayload::Instances`] slot.
    pub instances: StrongDesc<BufferPayload>,
    pub camera: Camera,
}

/// What one slot of the heterogeneous descriptor table holds.
pub enum BufferPayload {
    /// A per-frame scene root.
    SceneData(Scene),
    /// The scene's instance array.
    Instances(Vec<Instance>),
    /// One model's header.
    ModelData(crate::model::VisiModel),
    /// One model's triangle index triples.
    Triangles(Vec<crate::model::VisiIndices>),
    /// One model's vertices.
    Vertices(Vec<crate::model::VisiVertex>),
    /// A type-erased material model, as raw words; a dynamic buffer tag
    /// says which concrete material type they encode.
    MaterialWords(Vec<u32>),
}

impl Scene {
    /// The scene root points at an instance array living in the table.
    pub open spec fn wf(self, table: DescriptorTable<BufferPayload>) -> bool {
        &&& table.strong_valid(self.instances)
        &&& self.instances.spec_content() is Instances
    }

    /// The instance array this scene was built over.
    pub open spec fn spec_instances(self) -> Seq<Instance> {
        self.instances.spec_content()->Instances_0@
    }

    /// Looks up one instance of the scene by the id decoded from a pixel.
    pub fn load_instance(
        &self,
        table: &DescriptorTable<BufferPayload>,
        instance_id: InstanceId,
    ) -> (r: Instance)
        requires
            table.wf(),
            self.wf(*table),
            instance_id@ < self.spec_instances().len(),
        ensures
            r == self.spec_instances()[instance_id@ as int],
    {
        let payload = table.access_strong(&self.instances);
        match payload {
            BufferPayload::Instances(v) => v[instance_id.to_usize()],
            _ => vstd::pervasive::unreached(),
        }
    }
}

/// A type-erased strong reference to a material model buffer, as embedded
/// in GPU-visible model headers.
pub type DynMaterial = DynBuffer<StrongDesc<BufferPayload>>;

} // verus!
