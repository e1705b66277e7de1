use visibuf::accum::{CpuModel, CpuSceneAccum};
use visibuf::descriptor::DescriptorTable;
use visibuf::dispatch::{dispatch_group_counts, workgroup_count, MaterialEvalParam};
use visibuf::dyn_buffer::{BufferType, DynBuffer, DynBufferTypeRegistry};
use visibuf::id::CLEAR_VALUE;
use visibuf::image::Image2d;
use visibuf::material::DebugMaterial;
use visibuf::model::{VisiIndices, VisiVertex};
use visibuf::raster::{visibility_frag, raster_fragments, Fragment};
use visibuf::renderer::{
    draw_command, Extent, Format, OutputImageError, VisiPipelinesFormat, VisiRenderer,
    VisiRendererResources,
};
use visibuf::scene::{AffineTransform, BufferPayload, Camera, InstanceInfo};

const VIEW: u32 = 64;

// The triangle's corners in normalized device coordinates.
const TRI: [(f32, f32); 3] = [(-0.5, -0.5), (0.5, -0.5), (0.0, 0.5)];

fn edge(a: (f32, f32), b: (f32, f32), p: (f32, f32)) -> f32 {
    (b.0 - a.0) * (p.1 - a.1) - (b.1 - a.1) * (p.0 - a.0)
}

/// Independent edge-function test: whether a pixel center lies strictly
/// inside the triangle.
fn pixel_strictly_inside(x: u32, y: u32) -> bool {
    let px = (x as f32 + 0.5) / VIEW as f32 * 2.0 - 1.0;
    let py = (y as f32 + 0.5) / VIEW as f32 * 2.0 - 1.0;
    let p = (px, py);
    edge(TRI[0], TRI[1], p) > 0.0 && edge(TRI[1], TRI[2], p) > 0.0 && edge(TRI[2], TRI[0], p) > 0.0
}

fn footprint() -> Vec<Fragment> {
    let mut frags = Vec::new();
    for y in 0..VIEW {
        for x in 0..VIEW {
            if pixel_strictly_inside(x, y) {
                frags.push(Fragment { x, y, instance_id: 0, primitive_id: 0 });
            }
        }
    }
    assert!(frags.len() > 50, "the footprint should cover a real area");
    frags
}

struct Setup {
    table: DescriptorTable<BufferPayload>,
    tag: BufferType<DebugMaterial>,
    other_tag: BufferType<DebugMaterial>,
    scene: visibuf::descriptor::SharedDesc<BufferPayload>,
}

fn build_scene() -> Setup {
    let mut table: DescriptorTable<BufferPayload> = DescriptorTable::new(32);
    let mut registry = DynBufferTypeRegistry::new();
    let tag: BufferType<DebugMaterial> = registry.register_dyn_buffer_type();
    let other_tag: BufferType<DebugMaterial> = registry.register_dyn_buffer_type();
    let words = table.allocate(BufferPayload::MaterialWords(vec![0])).unwrap().to_shared();
    let material = DynBuffer::new(tag, words);
    let vertices = vec![
        VisiVertex([TRI[0].0.to_bits(), TRI[0].1.to_bits(), 0f32.to_bits()]),
        VisiVertex([TRI[1].0.to_bits(), TRI[1].1.to_bits(), 0f32.to_bits()]),
        VisiVertex([TRI[2].0.to_bits(), TRI[2].1.to_bits(), 0f32.to_bits()]),
    ];
    let indices = vec![VisiIndices([0, 1, 2])];
    let model = CpuModel::new(&mut table, vertices, indices, &material).unwrap();
    let mut accum = CpuSceneAccum::new();
    accum.push(
        &mut table,
        &model,
        InstanceInfo { world_from_local: AffineTransform([0; 12]) },
    );
    let camera = Camera { clip_from_world: [0; 16], viewport_width: VIEW, viewport_height: VIEW };
    let cpu_scene = accum.finish(&mut table, camera).unwrap();
    Setup { table, tag, other_tag, scene: cpu_scene.scene }
}

#[test]
fn one_triangle_end_to_end() {
    let mut setup = build_scene();
    let scene_transient = setup.table.to_transient(&setup.scene);
    let mut renderer = VisiRenderer::new(VisiPipelinesFormat::new(Format::B8G8R8A8Unorm));
    let baseline: (u32, u32) = (0xAAAA, 0xBBBB);
    let mut output: Image2d<(u32, u32)> = Image2d::new_filled(VIEW, VIEW, baseline);
    let frags = footprint();
    let eval = |inp: MaterialEvalParam| {
        (inp.geo.instance_id.to_u32(), inp.geo.triangle_id.to_u32())
    };
    renderer.render(&setup.table, &scene_transient, &setup.tag, &frags, &mut output, &eval);

    let resources = renderer.resources.as_ref().unwrap();
    for y in 0..VIEW {
        for x in 0..VIEW {
            let packed = resources.packed_vertex_image.fetch(x, y);
            if pixel_strictly_inside(x, y) {
                // A valid, decodable (instance 0, triangle 0) id inside
                // the footprint, and the evaluator's color.
                assert_eq!(packed, 0);
                assert_eq!(output.fetch(x, y), (0, 0));
            } else {
                // The clear sentinel everywhere outside it, and the
                // untouched baseline.
                assert_eq!(packed, CLEAR_VALUE);
                assert_eq!(output.fetch(x, y), baseline);
            }
        }
    }

    // A second pass with a different material tag declines every
    // fragment and leaves the whole image unmodified.
    let other_eval = |_inp: MaterialEvalParam| (7u32, 7u32);
    renderer.render(
        &setup.table,
        &scene_transient,
        &setup.other_tag,
        &frags,
        &mut output,
        &other_eval,
    );
    for y in 0..VIEW {
        for x in 0..VIEW {
            let expected = if pixel_strictly_inside(x, y) { (0, 0) } else { baseline };
            assert_eq!(output.fetch(x, y), expected);
        }
    }
}

#[test]
fn raster_last_fragment_wins() {
    let mut img: Image2d<u32> = Image2d::new_filled(8, 8, CLEAR_VALUE);
    let frags = vec![
        Fragment { x: 3, y: 4, instance_id: 1, primitive_id: 5 },
        Fragment { x: 3, y: 4, instance_id: 2, primitive_id: 6 },
    ];
    raster_fragments(&mut img, &frags);
    assert_eq!(img.fetch(3, 4), (2u32 << 20) | 6);
    assert_eq!(img.fetch(0, 0), CLEAR_VALUE);
}

#[test]
fn fragment_stage_packs_ids() {
    let i = visibuf::id::InstanceId::new(3).unwrap();
    let packed = visibility_frag(i, 11);
    assert_eq!(packed.to_u32(), (3u32 << 20) | 11);
}

#[test]
fn workgroup_tiling_covers_the_viewport() {
    assert_eq!(workgroup_count(0), 0);
    assert_eq!(workgroup_count(1), 1);
    assert_eq!(workgroup_count(8), 1);
    assert_eq!(workgroup_count(9), 2);
    assert_eq!(workgroup_count(64), 8);
    assert_eq!(workgroup_count(65), 9);
    let grid = dispatch_group_counts(64, 48);
    assert_eq!(grid, [8, 6, 1]);
    let grid = dispatch_group_counts(100, 1);
    assert_eq!(grid, [13, 1, 1]);
}

#[test]
fn image_fill_write_fetch() {
    let mut img: Image2d<u32> = Image2d::new_filled(4, 3, 9);
    assert_eq!(img.width(), 4);
    assert_eq!(img.height(), 3);
    assert_eq!(img.fetch(3, 2), 9);
    img.write(1, 2, 77);
    assert_eq!(img.fetch(1, 2), 77);
    assert_eq!(img.fetch(0, 2), 9);
    img.fill(5);
    assert_eq!(img.fetch(1, 2), 5);
}

#[test]
fn renderer_resources_are_cleared() {
    let res = VisiRendererResources::new(Extent { width: 16, height: 8, depth: 1 });
    assert_eq!(res.packed_vertex_image.fetch(15, 7), CLEAR_VALUE);
    assert_eq!(res.depth.fetch(0, 0), 1f32.to_bits());
}

#[test]
fn output_image_support_checks() {
    let renderer = VisiRenderer::new(VisiPipelinesFormat::new(Format::B8G8R8A8Unorm));
    let flat = Extent { width: 64, height: 64, depth: 1 };
    assert!(renderer.image_supported(Format::B8G8R8A8Unorm, flat).is_ok());
    assert_eq!(
        renderer.image_supported(Format::R8G8B8A8Unorm, flat).unwrap_err(),
        OutputImageError::FormatMismatch,
    );
    let volume = Extent { width: 64, height: 64, depth: 2 };
    assert_eq!(
        renderer.image_supported(Format::B8G8R8A8Unorm, volume).unwrap_err(),
        OutputImageError::NotTwoDimensional,
    );
}

#[test]
fn pipelines_format_and_draw_command() {
    let format = VisiPipelinesFormat::new(Format::R8G8B8A8Unorm);
    assert_eq!(format.depth, Format::D32Sfloat);
    assert_eq!(format.visi, Format::R32Uint);
    let rp = format.to_render_pass_format();
    assert_eq!(rp.color_attachments, vec![Format::R32Uint]);
    assert_eq!(rp.depth_attachment, Some(Format::D32Sfloat));

    let mut accum_table: DescriptorTable<BufferPayload> = DescriptorTable::new(32);
    let mut registry = DynBufferTypeRegistry::new();
    let tag: BufferType<DebugMaterial> = registry.register_dyn_buffer_type();
    let words =
        accum_table.allocate(BufferPayload::MaterialWords(vec![0])).unwrap().to_shared();
    let material = DynBuffer::new(tag, words);
    let model = CpuModel::new(
        &mut accum_table,
        vec![VisiVertex([0, 0, 0])],
        vec![VisiIndices([0, 0, 0])],
        &material,
    )
    .unwrap();
    let mut accum = CpuSceneAccum::new();
    accum.push(
        &mut accum_table,
        &model,
        InstanceInfo { world_from_local: AffineTransform([0; 12]) },
    );
    let camera = Camera { clip_from_world: [0; 16], viewport_width: 8, viewport_height: 8 };
    let cs = accum.finish(&mut accum_table, camera).unwrap();
    let cmd = draw_command(&cs.draws[0]);
    assert_eq!(cmd.index_count, 3);
    assert_eq!(cmd.instance_count, 1);
    assert_eq!(cmd.first_index, 0);
    assert_eq!(cmd.vertex_offset, 0);
    assert_eq!(cmd.first_instance, 0);
}
