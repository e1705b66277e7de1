//! Models as consumed by the visibility passes.
//!
//! A model is a header holding strong references to its triangle index
//! array and its vertex array, plus a type-erased reference to its
//! material model; the shading pass recovers the material through the
//! dynamic buffer tag. Vertex positions are floating-point data the model
//! carries but never reads; they are stored as raw IEEE-754 bit patterns.

use crate::descriptor::{DescriptorTable, StrongDesc};
use crate::id::TriangleId;
use crate::scene::{BufferPayload, DynMaterial};
use vstd::prelude::*;

verus! {

/// The three vertex indices of one triangle.
#[derive(Copy, Clone, Debug)]
pub struct VisiIndices(pub [u32; 3]);

/// One vertex of a model: its position, as the raw IEEE-754 bit patterns
/// of three coordinates.
#[derive(Copy, Clone, Debug)]
pub struct VisiVertex(pub [u32; 3]);

/// One triangle reassembled from a model: its index triple and the three
/// vertices those indices name.
#[derive(Copy, Clone, Debug)]
pub struct Triangle {
    pub indices: VisiIndices,
    pub vertices: [VisiVertex; 3],
}

/// A model header as embedded in GPU-visible scene data.
#[derive(Copy, Clone)]
pub struct VisiModel {
    /// Names a [`BufferPayload::Triangles`] slot.
    pub triangles: StrongDesc<BufferPayload>,
    /// Names a [`BufferPayload::Vertices`] slot.
    pub vertices: StrongDesc<BufferPayload>,
    /// The model's material, erased; the shading pass recovers it through
    /// its dynamic buffer tag.
    pub dyn_material: DynMaterial,
}

impl VisiModel {
    /// The triangle index triples this model was built over.
    pub open spec fn spec_triangles(self) -> Seq<VisiIndices> {
        self.triangles.spec_content()->Triangles_0@
    }

    /// The vertices this model was built over.
    pub open spec fn spec_vertices(self) -> Seq<VisiVertex> {
        self.vertices.spec_content()->Vertices_0@
    }

    /// The model's buffers live in the table, hold the payload kinds the
    /// header promises, and every triangle's indices name vertices that
    /// exist.
    pub open spec fn wf(self, table: DescriptorTable<BufferPayload>) -> bool {
        &&& table.strong_valid(self.triangles)
        &&& self.triangles.spec_content() is Triangles
        &&& table.strong_valid(self.vertices)
        &&& self.vertices.spec_content() is Vertices
        &&& table.strong_valid(self.dyn_material.spec_desc())
        &&& self.dyn_material.spec_desc().spec_content() is MaterialWords
        &&& forall|k: int, c: int|
            0 <= k < self.spec_triangles().len() && 0 <= c < 3
                ==> #[trigger] self.spec_triangles()[k].0@[c] < self.spec_vertices().len()
    }

    /// Loads one triangle's index triple.
    pub fn load_indices(
        &self,
        table: &DescriptorTable<BufferPayload>,
        triangle_id: TriangleId,
    ) -> (r: VisiIndices)
        requires
            table.wf(),
            table.strong_valid(self.triangles),
            self.triangles.spec_content() is Triangles,
            triangle_id@ < self.spec_triangles().len(),
        ensures
            r == self.spec_triangles()[triangle_id@ as int],
    {
        let payload = table.access_strong(&self.triangles);
        match payload {
            BufferPayload::Triangles(v) => v[triangle_id.to_usize()],
            _ => vstd::pervasive::unreached(),
        }
    }

    /// Loads one vertex by index.
    pub fn load_vertex(&self, table: &DescriptorTable<BufferPayload>, vertex_id: u32) -> (r:
        VisiVertex)
        requires
            table.wf(),
            table.strong_valid(self.vertices),
            self.vertices.spec_content() is Vertices,
            vertex_id < self.spec_vertices().len(),
        ensures
            r == self.spec_vertices()[vertex_id as int],
    {
        let payload = table.access_strong(&self.vertices);
        match payload {
            BufferPayload::Vertices(v) => v[vertex_id as usize],
            _ => vstd::pervasive::unreached(),
        }
    }

    /// Reassembles one triangle: its index triple and the three vertices
    /// those indices name.
    pub fn load_triangle(
        &self,
        table: &DescriptorTable<BufferPayload>,
        triangle_id: TriangleId,
    ) -> (r: Triangle)
        requires
            table.wf(),
            self.wf(*table),
            triangle_id@ < self.spec_triangles().len(),
        ensures
            r.indices == self.spec_triangles()[triangle_id@ as int],
            forall|c: int|
                0 <= c < 3 ==> #[trigger] r.vertices@[c] == self.spec_vertices()[self.spec_triangles()[triangle_id@ as int].0@[c] as int],
    {
        let indices = self.load_indices(table, triangle_id);
        let vertices = [
            self.load_vertex(table, indices.0[0]),
            self.load_vertex(table, indices.0[1]),
            self.load_vertex(table, indices.0[2]),
        ];
        Triangle { indices, vertices }
    }
}

} // verus!
