use visibuf::accum::{CpuModel, CpuSceneAccum, SceneBuildError};
use visibuf::descriptor::DescriptorTable;
use visibuf::dyn_buffer::{BufferType, DynBuffer, DynBufferTypeRegistry};
use visibuf::id::{InstanceId, TriangleId};
use visibuf::material::DebugMaterial;
use visibuf::model::{VisiIndices, VisiVertex};
use visibuf::scene::{AffineTransform, BufferPayload, Camera, InstanceInfo};

fn identity_transform() -> AffineTransform {
    AffineTransform([
        1f32.to_bits(),
        0,
        0,
        0,
        1f32.to_bits(),
        0,
        0,
        0,
        1f32.to_bits(),
        0,
        0,
        0,
    ])
}

fn test_camera(width: u32, height: u32) -> Camera {
    Camera { clip_from_world: [0; 16], viewport_width: width, viewport_height: height }
}

fn upload_material(
    table: &mut DescriptorTable<BufferPayload>,
    tag: BufferType<DebugMaterial>,
) -> DynBuffer<visibuf::descriptor::SharedDesc<BufferPayload>> {
    let words = table.allocate(BufferPayload::MaterialWords(vec![0])).unwrap().to_shared();
    DynBuffer::new(tag, words)
}

fn triangle_model(
    table: &mut DescriptorTable<BufferPayload>,
    material: &DynBuffer<visibuf::descriptor::SharedDesc<BufferPayload>>,
) -> CpuModel {
    let vertices = vec![
        VisiVertex([(-0.5f32).to_bits(), (-0.5f32).to_bits(), 0f32.to_bits()]),
        VisiVertex([(0.5f32).to_bits(), (-0.5f32).to_bits(), 0f32.to_bits()]),
        VisiVertex([(0.0f32).to_bits(), (0.5f32).to_bits(), 0f32.to_bits()]),
    ];
    let indices = vec![VisiIndices([0, 1, 2])];
    CpuModel::new(table, vertices, indices, material).unwrap()
}

#[test]
fn model_upload_links_buffers() {
    let mut table: DescriptorTable<BufferPayload> = DescriptorTable::new(16);
    let mut registry = DynBufferTypeRegistry::new();
    let tag: BufferType<DebugMaterial> = registry.register_dyn_buffer_type();
    let material = upload_material(&mut table, tag);
    let model = triangle_model(&mut table, &material);
    assert_eq!(model.indices_count, 3);

    let header = match table.access_shared(&model.model) {
        BufferPayload::ModelData(m) => *m,
        _ => panic!("model slot holds the wrong payload kind"),
    };
    assert!(header.dyn_material.can_upcast(&tag.to_untyped()));
    let tri = header.load_triangle(&table, TriangleId::new(0).unwrap());
    assert_eq!(tri.indices.0, [0, 1, 2]);
    assert_eq!(tri.vertices[0].0[0], (-0.5f32).to_bits());
    assert_eq!(tri.vertices[2].0[1], (0.5f32).to_bits());
    let v1 = header.load_vertex(&table, 1);
    assert_eq!(v1.0[0], (0.5f32).to_bits());
    assert_eq!(header.load_indices(&table, TriangleId::new(0).unwrap()).0, [0, 1, 2]);
}

#[test]
fn model_upload_fails_when_table_lacks_room() {
    let mut table: DescriptorTable<BufferPayload> = DescriptorTable::new(3);
    let mut registry = DynBufferTypeRegistry::new();
    let tag: BufferType<DebugMaterial> = registry.register_dyn_buffer_type();
    let material = upload_material(&mut table, tag);
    // One slot holds the material; only two are left for the three
    // model buffers.
    let vertices = vec![VisiVertex([0, 0, 0])];
    let indices = vec![VisiIndices([0, 0, 0])];
    let r = CpuModel::new(&mut table, vertices, indices, &material);
    assert!(matches!(r, Err(SceneBuildError::TableFull)));
}

#[test]
fn accumulator_groups_by_model_in_insertion_order() {
    let mut table: DescriptorTable<BufferPayload> = DescriptorTable::new(32);
    let mut registry = DynBufferTypeRegistry::new();
    let tag: BufferType<DebugMaterial> = registry.register_dyn_buffer_type();
    let material = upload_material(&mut table, tag);
    let model_a = triangle_model(&mut table, &material);
    let model_b = triangle_model(&mut table, &material);

    let info = InstanceInfo { world_from_local: identity_transform() };
    let mut accum = CpuSceneAccum::new();
    accum.push(&mut table, &model_a, info);
    accum.push(&mut table, &model_b, info);
    accum.push(&mut table, &model_a, info);
    accum.push(&mut table, &model_a, info);

    let cs = accum.finish(&mut table, test_camera(64, 64)).unwrap();
    assert_eq!(cs.instance_total_count, 4);
    assert_eq!(cs.draws.len(), 2);
    // Group of model_a first (first pushed), with three instances laid
    // out from id 0; then model_b's single instance.
    assert_eq!(cs.draws[0].instance_start, 0);
    assert_eq!(cs.draws[0].instance_count, 3);
    assert_eq!(cs.draws[1].instance_start, 3);
    assert_eq!(cs.draws[1].instance_count, 1);
    assert_eq!(cs.draws[0].model.indices_count, 3);

    let scene = match table.access_shared(&cs.scene) {
        BufferPayload::SceneData(s) => *s,
        _ => panic!("scene slot holds the wrong payload kind"),
    };
    assert_eq!(scene.camera.viewport_width, 64);
    let instance = scene.load_instance(&table, InstanceId::new(3).unwrap());
    // The fourth instance belongs to model_b's group.
    assert_eq!(instance.model.index(), model_b.model.index());
}

#[test]
fn too_many_instances_is_a_range_error() {
    let mut table: DescriptorTable<BufferPayload> = DescriptorTable::new(16);
    let mut registry = DynBufferTypeRegistry::new();
    let tag: BufferType<DebugMaterial> = registry.register_dyn_buffer_type();
    let material = upload_material(&mut table, tag);
    let model = triangle_model(&mut table, &material);

    let info = InstanceInfo { world_from_local: identity_transform() };
    let mut accum = CpuSceneAccum::new();
    for _ in 0..4096 {
        accum.push(&mut table, &model, info);
    }
    let r = accum.finish(&mut table, test_camera(64, 64));
    assert!(matches!(r, Err(SceneBuildError::InstanceIdOutOfRange)));
}

#[test]
fn finish_fails_when_table_lacks_room_for_the_frame() {
    let mut table: DescriptorTable<BufferPayload> = DescriptorTable::new(5);
    let mut registry = DynBufferTypeRegistry::new();
    let tag: BufferType<DebugMaterial> = registry.register_dyn_buffer_type();
    let material = upload_material(&mut table, tag);
    let model = triangle_model(&mut table, &material);
    // Material plus three model buffers fill four slots; one is left,
    // but the frame needs two.
    let info = InstanceInfo { world_from_local: identity_transform() };
    let mut accum = CpuSceneAccum::new();
    accum.push(&mut table, &model, info);
    let r = accum.finish(&mut table, test_camera(64, 64));
    assert!(matches!(r, Err(SceneBuildError::TableFull)));
}
