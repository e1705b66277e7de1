//! The shading pass of the two-pass protocol.
//!
//! A compute dispatch tiled in 8x8 workgroups covers the viewport. Each
//! invocation reads one pixel of the packed-id image back; if it holds the
//! clear sentinel the pixel is skipped and left untouched, so the output
//! can keep a baseline the caller chose. Otherwise the invocation unpacks
//! the id, walks the instance → model → triangle chain through the
//! descriptor table, and hands the reconstructed triangle to a pluggable
//! material evaluator. An evaluator only handles geometry tagged for it:
//! when the model's erased material tag differs from the dispatch's
//! expected tag, the pixel is left unmodified, so several evaluators can
//! run over the same image as independent passes.

use crate::descriptor::{DescriptorTable, StrongDesc, TransientDesc};
use crate::dyn_buffer::BufferType;
use crate::id::{spec_is_clear, spec_unpack_instance, spec_unpack_triangle, GeometryId, PackedGeometryId};
use crate::image::Image2d;
use crate::model::{Triangle, VisiModel};
use crate::scene::{AffineTransform, BufferPayload, Instance, Scene};
use vstd::prelude::*;

verus! {

/// Threads per axis of one workgroup of the shading dispatch: 8x8 tiles.
pub const MATERIAL_IMAGE_WG_SIZE: u32 = 8;

/// Workgroups needed to cover `size` pixels along one axis.
pub open spec fn spec_workgroup_count(size: u32) -> int {
    if size % MATERIAL_IMAGE_WG_SIZE == 0 {
        (size / MATERIAL_IMAGE_WG_SIZE) as int
    } else {
        (size / MATERIAL_IMAGE_WG_SIZE) as int + 1
    }
}

/// Workgroups needed to cover `size` pixels along one axis: the dispatch
/// grid covers the whole viewport and wastes less than one tile.
pub fn workgroup_count(size: u32) -> (r: u32)
    ensures
        r == spec_workgroup_count(size),
        size <= MATERIAL_IMAGE_WG_SIZE * r,
        MATERIAL_IMAGE_WG_SIZE * r < size + MATERIAL_IMAGE_WG_SIZE,
{
    let q = size / MATERIAL_IMAGE_WG_SIZE;
    if size % MATERIAL_IMAGE_WG_SIZE == 0 {
        q
    } else {
        q + 1
    }
}

/// The dispatch grid for a viewport: enough 8x8 workgroups to cover it in
/// x and y, one layer deep in z.
pub fn dispatch_group_counts(viewport_width: u32, viewport_height: u32) -> (r: [u32; 3])
    ensures
        r@[0] == spec_workgroup_count(viewport_width),
        r@[1] == spec_workgroup_count(viewport_height),
        r@[2] == 1,
{
    [workgroup_count(viewport_width), workgroup_count(viewport_height), 1]
}

/// Everything a material evaluator receives for one pixel: the scene, the
/// decoded geometry id, the reconstructed triangle, the owning instance's
/// transform, the pixel's depth sample (raw IEEE-754 bits), the pixel
/// coordinate, and the typed reference to the material model recovered
/// through the dynamic tag.
#[derive(Copy, Clone)]
pub struct MaterialEvalParam {
    pub scene: Scene,
    pub geo: GeometryId,
    pub tri: Triangle,
    pub world_from_local: AffineTransform,
    pub depth_bits: u32,
    pub pixel_x: u32,
    pub pixel_y: u32,
    pub material: StrongDesc<BufferPayload>,
}

/// The instance a non-sentinel packed id names within the scene.
pub open spec fn spec_instance_at(scene: Scene, packed: u32) -> Instance {
    scene.spec_instances()[spec_unpack_instance(packed) as int]
}

/// The model that instance names.
pub open spec fn spec_model_at(scene: Scene, packed: u32) -> VisiModel {
    spec_instance_at(scene, packed).model.spec_content()->ModelData_0
}

/// A non-sentinel packed id decodes against the scene: the instance
/// exists, its model header names a live, well-formed model, and the
/// triangle index is within that model.
pub open spec fn pixel_decodes(
    scene: Scene,
    table: DescriptorTable<BufferPayload>,
    packed: u32,
) -> bool {
    &&& spec_unpack_instance(packed) < scene.spec_instances().len()
    &&& table.strong_valid(spec_instance_at(scene, packed).model)
    &&& spec_instance_at(scene, packed).model.spec_content() is ModelData
    &&& spec_model_at(scene, packed).wf(table)
    &&& spec_unpack_triangle(packed) < spec_model_at(scene, packed).spec_triangles().len()
}

/// Every non-sentinel pixel the raster pass left in the image decodes
/// against the scene. The raster pass writes only ids of drawn geometry,
/// so this is the read-after-write contract between the two passes.
pub open spec fn scene_covers_image(
    scene: Scene,
    table: DescriptorTable<BufferPayload>,
    img: Image2d<u32>,
) -> bool {
    forall|x: int, y: int|
        img.in_bounds(x, y) && !spec_is_clear(#[trigger] img.pixel(x, y)) ==> pixel_decodes(
            scene,
            table,
            img.pixel(x, y),
        )
}

/// Whether the shading dispatch writes this pixel: inside the viewport,
/// not the clear sentinel, and the model's material tag is the one this
/// dispatch evaluates.
pub open spec fn spec_writes_pixel(
    scene: Scene,
    img: Image2d<u32>,
    tag: u32,
    x: int,
    y: int,
) -> bool {
    &&& 0 <= x < scene.camera.viewport_width
    &&& 0 <= y < scene.camera.viewport_height
    &&& !spec_is_clear(img.pixel(x, y))
    &&& spec_model_at(scene, img.pixel(x, y)).dyn_material.spec_id() == tag
}

/// The exact evaluator argument for a written pixel, reconstructed from
/// the packed id the pixel held.
pub open spec fn eval_param_for(
    inp: MaterialEvalParam,
    scene: Scene,
    packed: u32,
    depth_bits: u32,
    x: int,
    y: int,
) -> bool {
    let model = spec_model_at(scene, packed);
    let tid = spec_unpack_triangle(packed) as int;
    &&& inp.scene == scene
    &&& inp.geo.instance_id@ == spec_unpack_instance(packed)
    &&& inp.geo.triangle_id@ == spec_unpack_triangle(packed)
    &&& !inp.geo.is_clear
    &&& inp.tri.indices == model.spec_triangles()[tid]
    &&& forall|c: int|
        0 <= c < 3 ==> #[trigger] inp.tri.vertices@[c] == model.spec_vertices()[model.spec_triangles()[tid].0@[c] as int]
    &&& inp.world_from_local == spec_instance_at(scene, packed).info.world_from_local
    &&& inp.depth_bits == depth_bits
    &&& inp.pixel_x == x
    &&& inp.pixel_y == y
    &&& inp.material == model.dyn_material.spec_desc()
}

/// What one pixel looks like after the shading pass: written pixels hold
/// what the evaluator returned for exactly the reconstructed triangle at
/// that pixel; skipped pixels keep their previous value.
pub open spec fn pixel_shaded<P, F: Fn(MaterialEvalParam) -> P>(
    eval: F,
    scene: Scene,
    packed_image: Image2d<u32>,
    depth_image: Image2d<u32>,
    tag: u32,
    pre: Image2d<P>,
    post: Image2d<P>,
    x: int,
    y: int,
) -> bool {
    if spec_writes_pixel(scene, packed_image, tag, x, y) {
        exists|inp: MaterialEvalParam|
            #[trigger] eval_param_for(
                inp,
                scene,
                packed_image.pixel(x, y),
                depth_image.pixel(x, y),
                x,
                y,
            ) && call_ensures(eval, (inp,), post.pixel(x, y))
    } else {
        post.pixel(x, y) == pre.pixel(x, y)
    }
}

/// The requirements shared by every invocation of one shading dispatch.
pub open spec fn dispatch_inv<P>(
    table: DescriptorTable<BufferPayload>,
    scene_desc: TransientDesc<BufferPayload>,
    packed_image: Image2d<u32>,
    depth_image: Image2d<u32>,
    output_image: Image2d<P>,
) -> bool {
    &&& table.wf()
    &&& table.transient_valid(scene_desc)
    &&& scene_desc.spec_content() is SceneData
    &&& {
        let scene = scene_desc.spec_content()->SceneData_0;
        &&& scene.wf(table)
        &&& scene_covers_image(scene, table, packed_image)
        &&& packed_image.spec_width() == scene.camera.viewport_width
        &&& packed_image.spec_height() == scene.camera.viewport_height
        &&& depth_image.spec_width() == scene.camera.viewport_width
        &&& depth_image.spec_height() == scene.camera.viewport_height
        &&& output_image.spec_width() == scene.camera.viewport_width
        &&& output_image.spec_height() == scene.camera.viewport_height
    }
    &&& packed_image.wf()
    &&& depth_image.wf()
    &&& output_image.wf()
}

/// One invocation of the shading dispatch: shades the single pixel its
/// workgroup and invocation ids name, if that pixel is inside the
/// viewport, and touches nothing else.
pub fn material_shader_image_eval<M, P, F: Fn(MaterialEvalParam) -> P>(
    table: &DescriptorTable<BufferPayload>,
    scene_desc: &TransientDesc<BufferPayload>,
    material_buffer_type: &BufferType<M>,
    packed_image: &Image2d<u32>,
    depth_image: &Image2d<u32>,
    output_image: &mut Image2d<P>,
    wg_x: u32,
    wg_y: u32,
    inv_x: u32,
    inv_y: u32,
    eval: &F,
)
    requires
        dispatch_inv(*table, *scene_desc, *packed_image, *depth_image, *old(output_image)),
        inv_x < MATERIAL_IMAGE_WG_SIZE,
        inv_y < MATERIAL_IMAGE_WG_SIZE,
        MATERIAL_IMAGE_WG_SIZE * wg_x + inv_x <= u32::MAX,
        MATERIAL_IMAGE_WG_SIZE * wg_y + inv_y <= u32::MAX,
        forall|inp: MaterialEvalParam| call_requires(*eval, (inp,)),
    ensures
        final(output_image).wf(),
        final(output_image).same_dims(*old(output_image)),
        pixel_shaded(
            *eval,
            scene_desc.spec_content()->SceneData_0,
            *packed_image,
            *depth_image,
            material_buffer_type@,
            *old(output_image),
            *final(output_image),
            (MATERIAL_IMAGE_WG_SIZE * wg_x + inv_x) as int,
            (MATERIAL_IMAGE_WG_SIZE * wg_y + inv_y) as int,
        ),
        forall|x2: int, y2: int|
            old(output_image).in_bounds(x2, y2) && !(x2 == (MATERIAL_IMAGE_WG_SIZE * wg_x
                + inv_x) as int && y2 == (MATERIAL_IMAGE_WG_SIZE * wg_y + inv_y) as int)
                ==> #[trigger] final(output_image).pixel(x2, y2) == old(output_image).pixel(x2, y2),
{
    let ghost scene_spec = scene_desc.spec_content()->SceneData_0;
    let x = MATERIAL_IMAGE_WG_SIZE * wg_x + inv_x;
    let y = MATERIAL_IMAGE_WG_SIZE * wg_y + inv_y;
    let scene = match table.access_transient(scene_desc) {
        BufferPayload::SceneData(s) => *s,
        _ => vstd::pervasive::unreached(),
    };
    if x < scene.camera.viewport_width && y < scene.camera.viewport_height {
        let packed_word = packed_image.fetch(x, y);
        let packed = PackedGeometryId::from_u32(packed_word);
        if !packed.is_clear() {
            proof {
                assert(pixel_decodes(scene_spec, *table, packed_image.pixel(x as int, y as int)));
            }
            let geo = packed.unpack();
            let instance = scene.load_instance(table, geo.instance_id);
            let model = match table.access_strong(&instance.model) {
                BufferPayload::ModelData(m) => *m,
                _ => vstd::pervasive::unreached(),
            };
            let tag = material_buffer_type.to_untyped();
            if model.dyn_material.can_upcast(&tag) {
                let tri = model.load_triangle(table, geo.triangle_id);
                let material = model.dyn_material.upcast(*material_buffer_type);
                let depth_bits = depth_image.fetch(x, y);
                let inp = MaterialEvalParam {
                    scene,
                    geo,
                    tri,
                    world_from_local: instance.info.world_from_local,
                    depth_bits,
                    pixel_x: x,
                    pixel_y: y,
                    material,
                };
                let color = (*eval)(inp);
                output_image.write(x, y, color);
                proof {
                    assert(eval_param_for(
                        inp,
                        scene_spec,
                        packed_image.pixel(x as int, y as int),
                        depth_image.pixel(x as int, y as int),
                        x as int,
                        y as int,
                    ));
                }
            }
        }
    }
}

/// Runs one whole shading dispatch: a grid of 8x8 workgroups covering the
/// viewport, one invocation per pixel. Afterwards every viewport pixel
/// whose packed id names geometry tagged for this evaluator holds the
/// evaluator's color for the reconstructed triangle there, and every
/// other pixel keeps its previous value.
pub fn dispatch_image<M, P, F: Fn(MaterialEvalParam) -> P>(
    table: &DescriptorTable<BufferPayload>,
    scene_desc: &TransientDesc<BufferPayload>,
    material_buffer_type: &BufferType<M>,
    packed_image: &Image2d<u32>,
    depth_image: &Image2d<u32>,
    output_image: &mut Image2d<P>,
    eval: &F,
)
    requires
        dispatch_inv(*table, *scene_desc, *packed_image, *depth_image, *old(output_image)),
        forall|inp: MaterialEvalParam| call_requires(*eval, (inp,)),
    ensures
        final(output_image).wf(),
        final(output_image).same_dims(*old(output_image)),
        forall|x: int, y: int|
            old(output_image).in_bounds(x, y) ==> #[trigger] pixel_shaded(
                *eval,
                scene_desc.spec_content()->SceneData_0,
                *packed_image,
                *depth_image,
                material_buffer_type@,
                *old(output_image),
                *final(output_image),
                x,
                y,
            ),
{
    let ghost scene_spec = scene_desc.spec_content()->SceneData_0;
    let ghost tag = material_buffer_type@;
    let scene = match table.access_transient(scene_desc) {
        BufferPayload::SceneData(s) => *s,
        _ => vstd::pervasive::unreached(),
    };
    let vw = scene.camera.viewport_width;
    let vh = scene.camera.viewport_height;
    let mut y: u32 = 0;
    while y < vh
        invariant
            scene_spec == scene_desc.spec_content()->SceneData_0,
            tag == material_buffer_type@,
            vw == scene_spec.camera.viewport_width,
            vh == scene_spec.camera.viewport_height,
            y <= vh,
            dispatch_inv(*table, *scene_desc, *packed_image, *depth_image, *output_image),
            output_image.same_dims(*old(output_image)),
            forall|inp: MaterialEvalParam| call_requires(*eval, (inp,)),
            forall|x2: int, y2: int|
                old(output_image).in_bounds(x2, y2) && y2 < y ==> #[trigger] pixel_shaded(
                    *eval,
                    scene_spec,
                    *packed_image,
                    *depth_image,
                    tag,
                    *old(output_image),
                    *output_image,
                    x2,
                    y2,
                ),
            forall|x2: int, y2: int|
                old(output_image).in_bounds(x2, y2) && y2 >= y
                    ==> #[trigger] output_image.pixel(x2, y2) == old(output_image).pixel(x2, y2),
        decreases vh - y,
    {
        let mut x: u32 = 0;
        while x < vw
            invariant
                scene_spec == scene_desc.spec_content()->SceneData_0,
                tag == material_buffer_type@,
                vw == scene_spec.camera.viewport_width,
                vh == scene_spec.camera.viewport_height,
                y < vh,
                x <= vw,
                dispatch_inv(*table, *scene_desc, *packed_image, *depth_image, *output_image),
                output_image.same_dims(*old(output_image)),
                forall|inp: MaterialEvalParam| call_requires(*eval, (inp,)),
                forall|x2: int, y2: int|
                    old(output_image).in_bounds(x2, y2) && y2 < y ==> #[trigger] pixel_shaded(
                        *eval,
                        scene_spec,
                        *packed_image,
                        *depth_image,
                        tag,
                        *old(output_image),
                        *output_image,
                        x2,
                        y2,
                    ),
                forall|x2: int|
                    0 <= x2 < x ==> #[trigger] pixel_shaded(
                        *eval,
                        scene_spec,
                        *packed_image,
                        *depth_image,
                        tag,
                        *old(output_image),
                        *output_image,
                        x2,
                        y as int,
                    ),
                forall|x2: int, y2: int|
                    old(output_image).in_bounds(x2, y2) && (y2 > y || (y2 == y && x2 >= x))
                        ==> #[trigger] output_image.pixel(x2, y2) == old(output_image).pixel(
                        x2,
                        y2,
                    ),
            decreases vw - x,
        {
            let ghost pre = *output_image;
            let wg_x = x / MATERIAL_IMAGE_WG_SIZE;
            let inv_x = x % MATERIAL_IMAGE_WG_SIZE;
            let wg_y = y / MATERIAL_IMAGE_WG_SIZE;
            let inv_y = y % MATERIAL_IMAGE_WG_SIZE;
            material_shader_image_eval(
                table,
                scene_desc,
                material_buffer_type,
                packed_image,
                depth_image,
                output_image,
                wg_x,
                wg_y,
                inv_x,
                inv_y,
                eval,
            );
            proof {
                let xi = x as int;
                let yi = y as int;
                assert(MATERIAL_IMAGE_WG_SIZE * wg_x + inv_x == x);
                assert(MATERIAL_IMAGE_WG_SIZE * wg_y + inv_y == y);
                assert(pixel_shaded(
                    *eval,
                    scene_spec,
                    *packed_image,
                    *depth_image,
                    tag,
                    pre,
                    *output_image,
                    xi,
                    yi,
                ));
                // The just-shaded pixel, restated against the dispatch's
                // starting image: a write does not mention the previous
                // value, and a skip chains the two equalities.
                if !spec_writes_pixel(scene_spec, *packed_image, tag, xi, yi) {
                    assert(old(output_image).in_bounds(xi, yi));
                    assert(pre.pixel(xi, yi) == old(output_image).pixel(xi, yi));
                }
                assert(pixel_shaded(
                    *eval,
                    scene_spec,
                    *packed_image,
                    *depth_image,
                    tag,
                    *old(output_image),
                    *output_image,
                    xi,
                    yi,
                ));
                // Pixels shaded earlier kept their values, so they stay
                // shaded.
                assert forall|x2: int, y2: int|
                    old(output_image).in_bounds(x2, y2) && (y2 < yi || (y2 == yi && 0 <= x2 < xi))
                        implies pixel_shaded(
                    *eval,
                    scene_spec,
                    *packed_image,
                    *depth_image,
                    tag,
                    *old(output_image),
                    *output_image,
                    x2,
                    y2,
                ) by {
                    assert(pixel_shaded(
                        *eval,
                        scene_spec,
                        *packed_image,
                        *depth_image,
                        tag,
                        *old(output_image),
                        pre,
                        x2,
                        y2,
                    ));
                    assert(output_image.pixel(x2, y2) == pre.pixel(x2, y2));
                    if spec_writes_pixel(scene_spec, *packed_image, tag, x2, y2) {
                        let inp = choose|inp: MaterialEvalParam|
                            #[trigger] eval_param_for(
                                inp,
                                scene_spec,
                                packed_image.pixel(x2, y2),
                                depth_image.pixel(x2, y2),
                                x2,
                                y2,
                            ) && call_ensures(*eval, (inp,), pre.pixel(x2, y2));
                        assert(eval_param_for(
                            inp,
                            scene_spec,
                            packed_image.pixel(x2, y2),
                            depth_image.pixel(x2, y2),
                            x2,
                            y2,
                        ) && call_ensures(*eval, (inp,), output_image.pixel(x2, y2)));
                    }
                }
            }
            x += 1;
        }
        y += 1;
    }
}

} // verus!
