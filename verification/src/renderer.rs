//! The visibility renderer: formats, per-target resources, and the
//! two-pass frame.
//!
//! A frame renders in two sequential stages of one submitted unit of
//! work: the raster stage writes packed geometry ids and depth into
//! per-target images, then the shading stage reads the ids back and
//! colors the output. The renderer keeps the two intermediate images
//! between frames and recreates them when the target's extent changes.

use crate::accum::CpuDraw;
use crate::descriptor::{DescriptorTable, TransientDesc};
use crate::dispatch::{dispatch_image, pixel_decodes, pixel_shaded, scene_covers_image, MaterialEvalParam};
use crate::dyn_buffer::BufferType;
use crate::id::{spec_is_clear, CLEAR_VALUE};
use crate::image::{lemma_row_major_in_range, Image2d};
use crate::raster::{
    apply_fragments, lemma_apply_fragments_covered, lemma_apply_fragments_uncovered,
    raster_fragments, Fragment,
};
use crate::scene::BufferPayload;
use vstd::prelude::*;

verus! {

/// The IEEE-754 bits of one: the far plane, which depth clears to.
pub const DEPTH_CLEAR_BITS: u32 = 0x3F80_0000;

/// The image formats the visibility pipelines work with.
#[derive(Copy, Clone, Debug, Eq, PartialEq, Hash, Structural)]
pub enum Format {
    D32Sfloat,
    R32Uint,
    R8G8B8A8Unorm,
    B8G8R8A8Unorm,
}

/// The attachment formats one render pass is recorded against.
pub struct RenderPassFormat {
    pub color_attachments: Vec<Format>,
    pub depth_attachment: Option<Format>,
}

/// The width, height and depth of an image, in pixels.
#[derive(Copy, Clone, Debug, Eq, PartialEq, Hash, Structural)]
pub struct Extent {
    pub width: u32,
    pub height: u32,
    pub depth: u32,
}

/// The three formats the visibility passes agree on: the depth
/// attachment, the packed-id attachment, and the caller's output image.
#[derive(Copy, Clone, Debug, Eq, PartialEq, Hash, Structural)]
pub struct VisiPipelinesFormat {
    pub depth: Format,
    pub visi: Format,
    pub debug_output_format: Format,
}

impl VisiPipelinesFormat {
    pub fn new(debug_output_format: Format) -> (r: Self)
        ensures
            r.depth == Format::D32Sfloat,
            r.visi == Format::R32Uint,
            r.debug_output_format == debug_output_format,
    {
        VisiPipelinesFormat { depth: Format::D32Sfloat, visi: Format::R32Uint, debug_output_format }
    }

    /// The raster pass renders into one packed-id color attachment plus
    /// the depth attachment.
    pub fn to_render_pass_format(&self) -> (r: RenderPassFormat)
        ensures
            r.color_attachments@.len() == 1,
            r.color_attachments@[0] == self.visi,
            r.depth_attachment == Some(self.depth),
    {
        let mut color_attachments: Vec<Format> = Vec::new();
        color_attachments.push(self.visi);
        RenderPassFormat { color_attachments, depth_attachment: Some(self.depth) }
    }
}

/// One indexed indirect draw as the raster pipeline records it.
#[derive(Copy, Clone, Debug, Eq, PartialEq, Structural)]
pub struct DrawIndexedIndirectCommand {
    pub index_count: u32,
    pub instance_count: u32,
    pub first_index: u32,
    pub vertex_offset: i32,
    pub first_instance: u32,
}

/// The command that draws one accumulated group: all the model's indices,
/// once per instance of the group's consecutive id range.
pub fn draw_command(draw: &CpuDraw) -> (r: DrawIndexedIndirectCommand)
    ensures
        r.index_count == draw.model.indices_count,
        r.instance_count == draw.instance_count,
        r.first_index == 0,
        r.vertex_offset == 0,
        r.first_instance == draw.instance_start,
{
    DrawIndexedIndirectCommand {
        index_count: draw.model.indices_count,
        instance_count: draw.instance_count,
        first_index: 0,
        vertex_offset: 0,
        first_instance: draw.instance_start,
    }
}

/// Why an output image cannot be rendered into.
#[derive(Copy, Clone, Debug, Eq, PartialEq, Structural)]
pub enum OutputImageError {
    /// The output image's format is not the one the pipelines were built
    /// for.
    FormatMismatch,
    /// The output image is not two-dimensional.
    NotTwoDimensional,
}

/// The per-target images the renderer keeps between frames.
pub struct VisiRendererResources {
    pub extent: Extent,
    pub packed_vertex_image: Image2d<u32>,
    pub depth: Image2d<u32>,
}

impl VisiRendererResources {
    /// Both images exist at the stored extent.
    pub open spec fn wf(self) -> bool {
        &&& self.packed_vertex_image.wf()
        &&& self.packed_vertex_image.spec_width() == self.extent.width
        &&& self.packed_vertex_image.spec_height() == self.extent.height
        &&& self.depth.wf()
        &&& self.depth.spec_width() == self.extent.width
        &&& self.depth.spec_height() == self.extent.height
    }

    /// Creates the packed-id image and the depth image for one target
    /// extent, cleared to the sentinel and the far plane.
    pub fn new(extent: Extent) -> (r: Self)
        requires
            extent.width * extent.height <= usize::MAX,
        ensures
            r.wf(),
            r.extent == extent,
            forall|x: int, y: int|
                r.packed_vertex_image.in_bounds(x, y) ==> #[trigger] r.packed_vertex_image.pixel(
                    x,
                    y,
                ) == CLEAR_VALUE,
            forall|x: int, y: int|
                r.depth.in_bounds(x, y) ==> #[trigger] r.depth.pixel(x, y) == DEPTH_CLEAR_BITS,
    {
        VisiRendererResources {
            extent,
            packed_vertex_image: Image2d::new_filled(extent.width, extent.height, CLEAR_VALUE),
            depth: Image2d::new_filled(extent.width, extent.height, DEPTH_CLEAR_BITS),
        }
    }
}

/// The visibility renderer for one output target.
pub struct VisiRenderer {
    pub format: VisiPipelinesFormat,
    pub resources: Option<VisiRendererResources>,
}

impl VisiRenderer {
    /// Whatever per-target images the renderer holds are well-formed.
    pub open spec fn wf(self) -> bool {
        self.resources is Some ==> self.resources->Some_0.wf()
    }

    pub fn new(format: VisiPipelinesFormat) -> (r: Self)
        ensures
            r.format == format,
            r.resources is None,
            r.wf(),
    {
        VisiRenderer { format, resources: None }
    }

    /// Whether an output image can be rendered into: its format must be
    /// the configured one and it must be two-dimensional. Checked before
    /// any work is recorded.
    pub fn image_supported(&self, output_format: Format, extent: Extent) -> (r: Result<
        (),
        OutputImageError,
    >)
        ensures
            r is Ok <==> output_format == self.format.debug_output_format && extent.depth == 1,
            r is Err && r->Err_0 == OutputImageError::FormatMismatch <==> output_format
                != self.format.debug_output_format,
            r is Err && r->Err_0 == OutputImageError::NotTwoDimensional <==> output_format
                == self.format.debug_output_format && extent.depth != 1,
    {
        if output_format != self.format.debug_output_format {
            Err(OutputImageError::FormatMismatch)
        } else if extent.depth != 1 {
            Err(OutputImageError::NotTwoDimensional)
        } else {
            Ok(())
        }
    }

    /// Renders one frame into the output image: clears the packed-id
    /// target to the sentinel, writes the frame's surviving fragments
    /// over it, then runs the shading dispatch on the result. The two
    /// intermediate images are reused across frames while the target
    /// extent is unchanged, and recreated when it is not.
    pub fn render<M, P: Copy, F: Fn(MaterialEvalParam) -> P>(
        &mut self,
        table: &DescriptorTable<BufferPayload>,
        scene_desc: &TransientDesc<BufferPayload>,
        material_buffer_type: &BufferType<M>,
        fragments: &Vec<Fragment>,
        output_image: &mut Image2d<P>,
        eval: &F,
    )
        requires
            old(self).wf(),
            table.wf(),
            table.transient_valid(*scene_desc),
            scene_desc.spec_content() is SceneData,
            ({
                let scene = scene_desc.spec_content()->SceneData_0;
                &&& scene.wf(*table)
                &&& old(output_image).spec_width() == scene.camera.viewport_width
                &&& old(output_image).spec_height() == scene.camera.viewport_height
                &&& scene.camera.viewport_width * scene.camera.viewport_height <= usize::MAX
            }),
            old(output_image).wf(),
            forall|k: int|
                0 <= k < fragments@.len() ==> {
                    let scene = scene_desc.spec_content()->SceneData_0;
                    let f = #[trigger] fragments@[k];
                    &&& f.x < scene.camera.viewport_width
                    &&& f.y < scene.camera.viewport_height
                    &&& f.instance_id & crate::id::INSTANCE_MASK == f.instance_id
                    &&& f.primitive_id & crate::id::TRIANGLE_MASK == f.primitive_id
                    &&& (!spec_is_clear(f.spec_packed()) ==> pixel_decodes(
                        scene,
                        *table,
                        f.spec_packed(),
                    ))
                },
            forall|inp: MaterialEvalParam| call_requires(*eval, (inp,)),
        ensures
            final(self).wf(),
            final(output_image).wf(),
            final(output_image).same_dims(*old(output_image)),
            final(self).format == old(self).format,
            final(self).resources is Some,
            ({
                let res = final(self).resources->Some_0;
                let scene = scene_desc.spec_content()->SceneData_0;
                &&& res.wf()
                &&& res.extent.width == scene.camera.viewport_width
                &&& res.extent.height == scene.camera.viewport_height
                &&& res.extent.depth == 1
                &&& res.packed_vertex_image.spec_data() == apply_fragments(
                    Seq::new(
                        (scene.camera.viewport_width * scene.camera.viewport_height) as nat,
                        |i: int| CLEAR_VALUE,
                    ),
                    scene.camera.viewport_width as int,
                    fragments@,
                )
                &&& forall|x: int, y: int|
                    old(output_image).in_bounds(x, y) ==> #[trigger] pixel_shaded(
                        *eval,
                        scene,
                        res.packed_vertex_image,
                        res.depth,
                        material_buffer_type@,
                        *old(output_image),
                        *final(output_image),
                        x,
                        y,
                    )
            }),
    {
        let ghost scene_spec = scene_desc.spec_content()->SceneData_0;
        let scene = match table.access_transient(scene_desc) {
            BufferPayload::SceneData(s) => *s,
            _ => vstd::pervasive::unreached(),
        };
        let vw = scene.camera.viewport_width;
        let vh = scene.camera.viewport_height;
        let extent = Extent { width: vw, height: vh, depth: 1 };
        let reuse = match &self.resources {
            Some(r) => r.extent == extent,
            None => false,
        };
        let mut resources = if reuse {
            match self.resources.take() {
                Some(r) => r,
                None => vstd::pervasive::unreached(),
            }
        } else {
            VisiRendererResources::new(extent)
        };
        resources.packed_vertex_image.fill(CLEAR_VALUE);
        raster_fragments(&mut resources.packed_vertex_image, fragments);
        proof {
            let w = vw as int;
            let h = vh as int;
            let clear_seq = Seq::new((vw * vh) as nat, |i: int| CLEAR_VALUE);
            let img = resources.packed_vertex_image;
            assert(img.spec_data() == apply_fragments(clear_seq, w, fragments@));
            assert forall|k: int|
                0 <= k < fragments@.len() implies 0 <= (#[trigger] fragments@[k]).y * w
                + fragments@[k].x < clear_seq.len() by {
                lemma_row_major_in_range(w, h, fragments@[k].x as int, fragments@[k].y as int);
            }
            assert forall|x: int, y: int|
                img.in_bounds(x, y) && !spec_is_clear(#[trigger] img.pixel(x, y)) implies pixel_decodes(
                scene_spec,
                *table,
                img.pixel(x, y),
            ) by {
                lemma_row_major_in_range(w, h, x, y);
                if exists|k: int| 0 <= k < fragments@.len() && (#[trigger] fragments@[k]).covers(x, y) {
                    lemma_apply_fragments_covered(clear_seq, w, fragments@, x, y);
                    let k = choose|k: int|
                        0 <= k < fragments@.len() && (#[trigger] fragments@[k]).covers(x, y)
                            && apply_fragments(clear_seq, w, fragments@)[y * w + x]
                            == fragments@[k].spec_packed();
                    assert(img.pixel(x, y) == fragments@[k].spec_packed());
                } else {
                    lemma_apply_fragments_uncovered(clear_seq, w, fragments@, x, y);
                    assert(img.pixel(x, y) == CLEAR_VALUE);
                }
            }
            assert(scene_covers_image(scene_spec, *table, img));
        }
        dispatch_image(
            table,
            scene_desc,
            material_buffer_type,
            &resources.packed_vertex_image,
            &resources.depth,
            output_image,
            eval,
        );
        self.resources = Some(resources);
    }
}

} // verus!
