//! The CPU-side per-frame scene builder.
//!
//! Models are uploaded once and shared across frames through refcounted
//! descriptor references. Each frame, an accumulator gathers instances
//! grouped by model, in insertion order with one group per model; then
//! `finish` lays the instances out contiguously — one consecutive range
//! per draw — range-checks the instance ids against their bit width,
//! uploads the instance array and the scene root, and hands back the
//! per-model draws.

use crate::descriptor::{DescriptorTable, SharedDesc};
use crate::dyn_buffer::DynBuffer;
use crate::id::INSTANCE_MASK;
use crate::model::{VisiIndices, VisiModel, VisiVertex};
use crate::scene::{BufferPayload, Camera, Instance, InstanceInfo, Scene};
use vstd::prelude::*;

verus! {

/// Why a frame's scene could not be built.
#[derive(Copy, Clone, Debug, Eq, PartialEq, Structural)]
pub enum SceneBuildError {
    /// The accumulated instances do not fit the instance id's bit width.
    InstanceIdOutOfRange,
    /// The descriptor table cannot take the frame's buffers.
    TableFull,
}

/// A model as the CPU side holds it: a share of the model header slot, a
/// share of the index buffer for binding draws, and the index count of
/// one instance.
pub struct CpuModel {
    /// Share of the model header slot, a [`BufferPayload::ModelData`].
    pub model: SharedDesc<BufferPayload>,
    /// Share of the index buffer, a [`BufferPayload::Triangles`]; draws
    /// bind it as their index source.
    pub indices: SharedDesc<BufferPayload>,
    /// Indices per drawn instance: three per triangle.
    pub indices_count: u32,
}

impl CpuModel {
    /// The model header this handle names.
    pub open spec fn spec_header(self) -> VisiModel {
        self.model.spec_content()->ModelData_0
    }

    pub open spec fn wf(self, table: DescriptorTable<BufferPayload>) -> bool {
        &&& table.shared_valid(self.model)
        &&& self.model.spec_content() is ModelData
        &&& self.spec_header().wf(table)
        &&& table.shared_valid(self.indices)
        &&& self.indices.spec_content() is Triangles
        &&& self.indices_count == 3 * self.spec_header().spec_triangles().len()
    }

    /// Uploads one model: its index triples, its vertices, and a header
    /// tying them to the type-erased material. Fails exactly when the
    /// table lacks room for the three buffers.
    pub fn new(
        table: &mut DescriptorTable<BufferPayload>,
        vertices: Vec<VisiVertex>,
        indices: Vec<VisiIndices>,
        dyn_material: &DynBuffer<SharedDesc<BufferPayload>>,
    ) -> (r: Result<CpuModel, SceneBuildError>)
        requires
            old(table).wf(),
            forall|k: int, c: int|
                0 <= k < indices@.len() && 0 <= c < 3 ==> #[trigger] indices@[k].0@[c]
                    < vertices@.len(),
            old(table).shared_valid(dyn_material.spec_desc()),
            dyn_material.spec_desc().spec_content() is MaterialWords,
            old(table).refcount_at(dyn_material.spec_desc().spec_index()) < u64::MAX,
            3 * indices@.len() <= u32::MAX,
        ensures
            final(table).wf(),
            final(table).spec_capacity() == old(table).spec_capacity(),
            final(table).spec_recording() == old(table).spec_recording(),
            final(table).spec_completed() == old(table).spec_completed(),
            forall|d: SharedDesc<BufferPayload>|
                #[trigger] old(table).shared_valid(d) ==> final(table).shared_valid(d),
            forall|d: crate::descriptor::StrongDesc<BufferPayload>|
                #[trigger] old(table).strong_valid(d) ==> final(table).strong_valid(d),
            r is Err <==> old(table).spec_free_room() < 3,
            r is Err ==> *final(table) == *old(table),
            r is Ok ==> {
                let m = r->Ok_0;
                &&& m.wf(*final(table))
                &&& m.spec_header().spec_triangles() == indices@
                &&& m.spec_header().spec_vertices() == vertices@
                &&& m.spec_header().dyn_material.spec_id() == dyn_material.spec_id()
                &&& m.spec_header().dyn_material.spec_desc().spec_index()
                    == dyn_material.spec_desc().spec_index()
                &&& m.spec_header().dyn_material.spec_desc().spec_content()
                    == dyn_material.spec_desc().spec_content()
                &&& m.indices.spec_index() == m.spec_header().triangles.spec_index()
                &&& m.indices_count == 3 * indices@.len()
                &&& final(table).spec_free_room() == old(table).spec_free_room() - 3
            },
    {
        if table.free_room() < 3 {
            return Err(SceneBuildError::TableFull);
        }
        let ghost t0 = *table;
        let indices_count = 3 * (indices.len() as u32);
        let triangles_owned = match table.allocate(BufferPayload::Triangles(indices)) {
            Ok(d) => d,
            Err(_) => vstd::pervasive::unreached(),
        };
        let ghost t1 = *table;
        let triangles_shared = triangles_owned.to_shared();
        let vertices_owned = match table.allocate(BufferPayload::Vertices(vertices)) {
            Ok(d) => d,
            Err(_) => vstd::pervasive::unreached(),
        };
        let ghost t2 = *table;
        let vertices_shared = vertices_owned.to_shared();
        proof {
            assert(crate::descriptor::slot_unchanged(t1, t2, triangles_shared.spec_index()));
        }
        let tri_strong = table.to_strong(&triangles_shared);
        let ghost t3 = *table;
        proof {
            assert(crate::descriptor::slot_unchanged(t2, t3, vertices_shared.spec_index()));
        }
        let vtx_strong = table.to_strong(&vertices_shared);
        let ghost t4 = *table;
        proof {
            assert(crate::descriptor::slot_unchanged(t0, t1, dyn_material.spec_desc().spec_index()));
            assert(crate::descriptor::slot_unchanged(t1, t2, dyn_material.spec_desc().spec_index()));
            assert(crate::descriptor::slot_unchanged(t2, t3, dyn_material.spec_desc().spec_index()));
            assert(crate::descriptor::slot_unchanged(t3, t4, dyn_material.spec_desc().spec_index()));
        }
        let mat_strong = dyn_material.to_strong(table);
        let ghost t5 = *table;
        let header = VisiModel {
            triangles: tri_strong,
            vertices: vtx_strong,
            dyn_material: mat_strong,
        };
        proof {
            assert(header.wf(t5)) by {
                assert(crate::descriptor::slot_unchanged(t3, t4, tri_strong.spec_index()));
                assert(crate::descriptor::slot_unchanged(t4, t5, tri_strong.spec_index()));
                assert(crate::descriptor::slot_unchanged(t4, t5, vtx_strong.spec_index()));
            }
        }
        let model_owned = match table.allocate(BufferPayload::ModelData(header)) {
            Ok(d) => d,
            Err(_) => vstd::pervasive::unreached(),
        };
        let ghost t6 = *table;
        let model_shared = model_owned.to_shared();
        proof {
            assert(crate::descriptor::slot_unchanged(t4, t5, vertices_shared.spec_index()));
            assert(crate::descriptor::slot_unchanged(t5, t6, vertices_shared.spec_index()));
        }
        table.drop_shared(vertices_shared);
        let m = CpuModel { model: model_shared, indices: triangles_shared, indices_count };
        proof {
            let tf = *table;
            let tri_i = m.indices.spec_index();
            let vtx_i = vtx_strong.spec_index();
            let mat_i = mat_strong.spec_desc().spec_index();
            let mdl_i = m.model.spec_index();
            assert(crate::descriptor::slot_unchanged(t5, t6, tri_i));
            assert(crate::descriptor::slot_unchanged(t6, tf, tri_i));
            assert(crate::descriptor::slot_unchanged(t5, t6, vtx_i) && crate::descriptor::slot_unchanged(t5, t6, mat_i));
            assert(crate::descriptor::slot_unchanged(t6, tf, mat_i) && crate::descriptor::slot_unchanged(t6, tf, mdl_i));
            assert(m.wf(tf)) by {
                assert(tf.refcount_at(vtx_i) == t6.refcount_at(vtx_i) - 1);
                assert(t6.refcount_at(vtx_i) == 2);
            }
            assert forall|d: SharedDesc<BufferPayload>| #[trigger] t0.shared_valid(d) implies tf.shared_valid(d) by {
                let j = d.spec_index();
                assert(t0.payload_at(j) is Some);
                assert(j != tri_i);
                assert(crate::descriptor::slot_unchanged(t0, t1, j));
                assert(j != vtx_i);
                assert(crate::descriptor::slot_unchanged(t1, t2, j));
                assert(crate::descriptor::slot_unchanged(t2, t3, j));
                assert(crate::descriptor::slot_unchanged(t3, t4, j));
                if j != mat_i {
                    assert(crate::descriptor::slot_unchanged(t4, t5, j));
                }
                assert(t5.payload_at(j) is Some && t5.refcount_at(j) > 0);
                assert(j != mdl_i);
                assert(crate::descriptor::slot_unchanged(t5, t6, j));
                assert(crate::descriptor::slot_unchanged(t6, tf, j));
            }
            assert forall|d: crate::descriptor::StrongDesc<BufferPayload>|
                #[trigger] t0.strong_valid(d) implies tf.strong_valid(d) by {
                let j = d.spec_index();
                assert(t0.payload_at(j) is Some);
                assert(j != tri_i);
                assert(crate::descriptor::slot_unchanged(t0, t1, j));
                assert(j != vtx_i);
                assert(crate::descriptor::slot_unchanged(t1, t2, j));
                assert(crate::descriptor::slot_unchanged(t2, t3, j));
                assert(crate::descriptor::slot_unchanged(t3, t4, j));
                if j != mat_i {
                    assert(crate::descriptor::slot_unchanged(t4, t5, j));
                }
                assert(t5.payload_at(j) is Some && t5.refcount_at(j) > 0);
                assert(j != mdl_i);
                assert(crate::descriptor::slot_unchanged(t5, t6, j));
                assert(crate::descriptor::slot_unchanged(t6, tf, j));
            }
        }
        Ok(m)
    }
}

/// One accumulated group: a model and the instances to draw with it.
pub struct ModelGroup {
    pub model: CpuModel,
    pub instances: Vec<Instance>,
}

/// The slot index that identifies a group's model.
pub open spec fn group_key(g: ModelGroup) -> int {
    g.model.model.spec_index()
}

/// Whether some group already holds this model.
pub open spec fn has_group(groups: Seq<ModelGroup>, key: int) -> bool {
    exists|g: int| 0 <= g < groups.len() && #[trigger] group_key(groups[g]) == key
}

/// The instance the accumulator records: a GPU-embeddable reference to
/// the model's header slot plus the per-instance data.
pub open spec fn is_instance_of(inst: Instance, model: CpuModel, info: InstanceInfo) -> bool {
    &&& inst.model.spec_index() == model.model.spec_index()
    &&& inst.model.spec_content() == model.model.spec_content()
    &&& inst.info == info
}

/// Two CPU-side model handles name the same slots with the same contents.
pub open spec fn same_cpu_model(a: CpuModel, b: CpuModel) -> bool {
    &&& a.model.spec_index() == b.model.spec_index()
    &&& a.model.spec_content() == b.model.spec_content()
    &&& a.indices.spec_index() == b.indices.spec_index()
    &&& a.indices.spec_content() == b.indices.spec_content()
    &&& a.indices_count == b.indices_count
}

/// The effect of recording one more instance of a model that already has
/// a group: that group alone gains the instance at its end.
pub open spec fn group_extended(
    pre: Seq<ModelGroup>,
    post: Seq<ModelGroup>,
    g: int,
    model: CpuModel,
    info: InstanceInfo,
) -> bool {
    &&& 0 <= g < pre.len()
    &&& group_key(pre[g]) == model.model.spec_index()
    &&& post.len() == pre.len()
    &&& (forall|g2: int| 0 <= g2 < pre.len() && g2 != g ==> post[g2] == pre[g2])
    &&& post[g].model == pre[g].model
    &&& post[g].instances@.len() == pre[g].instances@.len() + 1
    &&& (forall|i: int| 0 <= i < pre[g].instances@.len() ==> post[g].instances@[i] == pre[g].instances@[i])
    &&& is_instance_of(post[g].instances@.last(), model, info)
}

/// All accumulated instances laid out contiguously, group by group in
/// insertion order.
pub open spec fn flat_instances(groups: Seq<ModelGroup>) -> Seq<Instance>
    decreases groups.len(),
{
    if groups.len() == 0 {
        Seq::empty()
    } else {
        groups[0].instances@ + flat_instances(groups.subrange(1, groups.len() as int))
    }
}

/// Appending one group appends its instances to the layout.
pub proof fn lemma_flat_instances_push(groups: Seq<ModelGroup>, g: ModelGroup)
    ensures
        flat_instances(groups.push(g)) == flat_instances(groups) + g.instances@,
    decreases groups.len(),
{
    let pushed = groups.push(g);
    if groups.len() == 0 {
        assert(pushed[0] == g);
        let tail = pushed.subrange(1, pushed.len() as int);
        assert(tail =~= Seq::<ModelGroup>::empty());
        assert(flat_instances(tail) == Seq::<Instance>::empty());
        assert(g.instances@ + Seq::<Instance>::empty() =~= g.instances@);
        assert(flat_instances(groups) == Seq::<Instance>::empty());
        assert(flat_instances(groups) + g.instances@ =~= g.instances@);
    } else {
        assert(pushed[0] == groups[0]);
        assert(pushed.subrange(1, pushed.len() as int) =~= groups.subrange(
            1,
            groups.len() as int,
        ).push(g));
        lemma_flat_instances_push(groups.subrange(1, groups.len() as int), g);
        assert(groups[0].instances@ + (flat_instances(groups.subrange(1, groups.len() as int))
            + g.instances@) =~= (groups[0].instances@ + flat_instances(
            groups.subrange(1, groups.len() as int),
        )) + g.instances@);
    }
}

/// Splitting the groups splits the layout.
pub proof fn lemma_flat_split(groups: Seq<ModelGroup>, k: int)
    requires
        0 <= k <= groups.len(),
    ensures
        flat_instances(groups) == flat_instances(groups.subrange(0, k)) + flat_instances(
            groups.subrange(k, groups.len() as int),
        ),
    decreases groups.len() - k,
{
    if k == groups.len() {
        assert(groups.subrange(0, k) =~= groups);
        assert(flat_instances(groups.subrange(k, groups.len() as int))
            == Seq::<Instance>::empty());
        assert(flat_instances(groups) + Seq::<Instance>::empty() =~= flat_instances(groups));
    } else {
        lemma_flat_split(groups, k + 1);
        assert(groups.subrange(0, k + 1) =~= groups.subrange(0, k).push(groups[k]));
        lemma_flat_instances_push(groups.subrange(0, k), groups[k]);
        let mid = groups.subrange(k, groups.len() as int);
        assert(mid[0] == groups[k]);
        assert(mid.subrange(1, mid.len() as int) =~= groups.subrange(k + 1, groups.len() as int));
        assert((flat_instances(groups.subrange(0, k)) + groups[k].instances@) + flat_instances(
            groups.subrange(k + 1, groups.len() as int),
        ) =~= flat_instances(groups.subrange(0, k)) + (groups[k].instances@ + flat_instances(
            groups.subrange(k + 1, groups.len() as int),
        )));
    }
}

/// One draw of the finished frame: a model and the consecutive range of
/// instance ids drawn with it.
pub struct CpuDraw {
    pub model: CpuModel,
    pub instance_start: u32,
    pub instance_count: u32,
}

/// A finished frame: the per-model draws, the instance total, the camera,
/// and a share of the uploaded scene root.
pub struct CpuScene {
    pub draws: Vec<CpuDraw>,
    pub instance_total_count: u32,
    pub camera: Camera,
    /// Share of the scene root slot, a [`BufferPayload::SceneData`].
    pub scene: SharedDesc<BufferPayload>,
}

/// The per-frame instance accumulator: groups in insertion order, one
/// group per distinct model.
pub struct CpuSceneAccum {
    pub groups: Vec<ModelGroup>,
}

impl CpuSceneAccum {
    /// Every group's model and every recorded instance is live and
    /// well-formed, each instance names its group's model, and no two
    /// groups share a model.
    pub open spec fn wf(self, table: DescriptorTable<BufferPayload>) -> bool {
        &&& forall|g: int|
            0 <= g < self.groups@.len() ==> (#[trigger] self.groups@[g]).model.wf(table)
        &&& forall|g: int, i: int|
            0 <= g < self.groups@.len() && 0 <= i < self.groups@[g].instances@.len()
                ==> (#[trigger] self.groups@[g].instances@[i]).wf(table)
        &&& forall|g1: int, g2: int|
            0 <= g1 < g2 < self.groups@.len() ==> #[trigger] group_key(self.groups@[g1])
                != #[trigger] group_key(self.groups@[g2])
    }

    pub fn new() -> (r: Self)
        ensures
            r.groups@.len() == 0,
    {
        CpuSceneAccum { groups: Vec::new() }
    }

    /// Records one instance of a model for this frame, grouping it with
    /// the model's other instances; a first instance of a model opens a
    /// new group at the end.
    pub fn push(
        &mut self,
        table: &mut DescriptorTable<BufferPayload>,
        model: &CpuModel,
        info: InstanceInfo,
    )
        requires
            old(self).wf(*old(table)),
            old(table).wf(),
            model.wf(*old(table)),
            old(table).refcount_at(model.model.spec_index()) + 2 < u64::MAX,
            old(table).refcount_at(model.indices.spec_index()) < u64::MAX,
        ensures
            final(table).wf(),
            final(table).spec_len() == old(table).spec_len(),
            final(table).spec_capacity() == old(table).spec_capacity(),
            final(table).spec_recording() == old(table).spec_recording(),
            final(table).spec_completed() == old(table).spec_completed(),
            final(table).spec_free_room() == old(table).spec_free_room(),
            forall|d2: SharedDesc<BufferPayload>|
                #[trigger] old(table).shared_valid(d2) ==> final(table).shared_valid(d2),
            forall|d2: crate::descriptor::StrongDesc<BufferPayload>|
                #[trigger] old(table).strong_valid(d2) ==> final(table).strong_valid(d2),
            final(self).wf(*final(table)),
            model.wf(*final(table)),
            if has_group(old(self).groups@, model.model.spec_index()) {
                exists|g: int|
                    #[trigger] group_extended(
                        old(self).groups@,
                        final(self).groups@,
                        g,
                        *model,
                        info,
                    )
            } else {
                &&& final(self).groups@.len() == old(self).groups@.len() + 1
                &&& (forall|g2: int|
                    0 <= g2 < old(self).groups@.len() ==> final(self).groups@[g2] == old(self).groups@[g2])
                &&& same_cpu_model(final(self).groups@.last().model, *model)
                &&& final(self).groups@.last().instances@.len() == 1
                &&& is_instance_of(final(self).groups@.last().instances@[0], *model, info)
            },
    {
        let ghost t0 = *table;
        let inst_strong = table.to_strong(&model.model);
        let ghost t1 = *table;
        let inst = Instance { model: inst_strong, info };
        proof {
            assert(inst.wf(t1)) by {
                assert(t0.strong_valid(model.spec_header().triangles));
                assert(t0.strong_valid(model.spec_header().vertices));
                assert(t0.strong_valid(model.spec_header().dyn_material.spec_desc()));
            }
        }
        let key = model.model.index();
        let n = self.groups.len();
        let mut g: usize = 0;
        while g < n && self.groups[g].model.model.index() != key
            invariant
                n == self.groups@.len(),
                g <= n,
                forall|g2: int| 0 <= g2 < g ==> #[trigger] group_key(self.groups@[g2]) != key
                    as int,
            decreases n - g,
        {
            g += 1;
        }
        if g < n {
            let grp = &mut self.groups[g];
            grp.instances.push(inst);
            proof {
                assert(group_key(old(self).groups@[g as int]) == key as int);
                assert(final(self).groups@[g as int].instances@ == old(self).groups@[g as int].instances@.push(inst));
                assert(group_extended(old(self).groups@, self.groups@, g as int, *model, info));
                assert forall|g2: int, i: int|
                    0 <= g2 < self.groups@.len() && 0 <= i
                        < self.groups@[g2].instances@.len() implies (#[trigger] self.groups@[g2].instances@[i]).wf(
                    t1,
                ) by {
                    if g2 == g as int && i == self.groups@[g2].instances@.len() - 1 {
                    } else {
                        assert(old(self).groups@[g2].instances@[i].wf(t0));
                        assert(t0.strong_valid(old(self).groups@[g2].instances@[i].model));
                        assert(t0.strong_valid(
                            old(self).groups@[g2].instances@[i].model.spec_content()->ModelData_0.triangles,
                        ));
                        assert(t0.strong_valid(
                            old(self).groups@[g2].instances@[i].model.spec_content()->ModelData_0.vertices,
                        ));
                        assert(t0.strong_valid(
                            old(self).groups@[g2].instances@[i].model.spec_content()->ModelData_0.dyn_material.spec_desc(),
                        ));
                    }
                }
                assert forall|g2: int|
                    0 <= g2 < self.groups@.len() implies (#[trigger] self.groups@[g2]).model.wf(
                    t1,
                ) by {
                    assert(old(self).groups@[g2].model.wf(t0));
                    assert(t0.shared_valid(old(self).groups@[g2].model.model));
                    assert(t0.shared_valid(old(self).groups@[g2].model.indices));
                    assert(t0.strong_valid(old(self).groups@[g2].model.spec_header().triangles));
                    assert(t0.strong_valid(old(self).groups@[g2].model.spec_header().vertices));
                    assert(t0.strong_valid(
                        old(self).groups@[g2].model.spec_header().dyn_material.spec_desc(),
                    ));
                }
            }
        } else {
            proof {
                assert(!has_group(self.groups@, key as int));
            }
            let clone_model = table.clone_shared(&model.model);
            let ghost t2 = *table;
            proof {
                assert(model.model.spec_index() != model.indices.spec_index());
                assert(crate::descriptor::slot_unchanged(t0, t1, model.indices.spec_index()));
                assert(crate::descriptor::slot_unchanged(t1, t2, model.indices.spec_index()));
            }
            let clone_indices = table.clone_shared(&model.indices);
            let model_clone = CpuModel {
                model: clone_model,
                indices: clone_indices,
                indices_count: model.indices_count,
            };
            let mut instances: Vec<Instance> = Vec::new();
            instances.push(inst);
            self.groups.push(ModelGroup { model: model_clone, instances });
            proof {
                let tf = *table;
                assert forall|g2: int, i: int|
                    0 <= g2 < self.groups@.len() && 0 <= i
                        < self.groups@[g2].instances@.len() implies (#[trigger] self.groups@[g2].instances@[i]).wf(
                    tf,
                ) by {
                    if g2 < old(self).groups@.len() {
                        assert(old(self).groups@[g2].instances@[i].wf(t0));
                        assert(t0.strong_valid(old(self).groups@[g2].instances@[i].model));
                        assert(t0.strong_valid(
                            old(self).groups@[g2].instances@[i].model.spec_content()->ModelData_0.triangles,
                        ));
                        assert(t0.strong_valid(
                            old(self).groups@[g2].instances@[i].model.spec_content()->ModelData_0.vertices,
                        ));
                        assert(t0.strong_valid(
                            old(self).groups@[g2].instances@[i].model.spec_content()->ModelData_0.dyn_material.spec_desc(),
                        ));
                    } else {
                        assert(self.groups@[g2].instances@[i] == inst);
                        assert(inst.wf(t1));
                        assert(t1.strong_valid(inst.model));
                        assert(t1.strong_valid(inst.model.spec_content()->ModelData_0.triangles));
                        assert(t1.strong_valid(inst.model.spec_content()->ModelData_0.vertices));
                        assert(t1.strong_valid(
                            inst.model.spec_content()->ModelData_0.dyn_material.spec_desc(),
                        ));
                    }
                }
                assert forall|g2: int|
                    0 <= g2 < self.groups@.len() implies (#[trigger] self.groups@[g2]).model.wf(
                    tf,
                ) by {
                    if g2 < old(self).groups@.len() {
                        assert(old(self).groups@[g2].model.wf(t0));
                        assert(t0.shared_valid(old(self).groups@[g2].model.model));
                        assert(t0.shared_valid(old(self).groups@[g2].model.indices));
                        assert(t0.strong_valid(
                            old(self).groups@[g2].model.spec_header().triangles,
                        ));
                        assert(t0.strong_valid(old(self).groups@[g2].model.spec_header().vertices));
                        assert(t0.strong_valid(
                            old(self).groups@[g2].model.spec_header().dyn_material.spec_desc(),
                        ));
                    } else {
                        assert(t0.strong_valid(model.spec_header().triangles));
                        assert(t0.strong_valid(model.spec_header().vertices));
                        assert(t0.strong_valid(model.spec_header().dyn_material.spec_desc()));
                    }
                }
            }
        }
        proof {
            let tf = *table;
            assert(model.wf(tf)) by {
                assert(t0.strong_valid(model.spec_header().triangles));
                assert(t0.strong_valid(model.spec_header().vertices));
                assert(t0.strong_valid(model.spec_header().dyn_material.spec_desc()));
            }
        }
    }

    /// Lays the accumulated instances out contiguously — one consecutive
    /// id range per draw — and uploads the instance array and the scene
    /// root. Fails with a range error exactly when the instances do not
    /// fit the instance id's bit width, and with a capacity error exactly
    /// when the range check passed but the table lacks room for the two
    /// buffers; an error leaves the table untouched.
    pub fn finish(
        self,
        table: &mut DescriptorTable<BufferPayload>,
        camera: Camera,
    ) -> (r: Result<CpuScene, SceneBuildError>)
        requires
            self.wf(*old(table)),
            old(table).wf(),
        ensures
            final(table).wf(),
            final(table).spec_capacity() == old(table).spec_capacity(),
            final(table).spec_recording() == old(table).spec_recording(),
            final(table).spec_completed() == old(table).spec_completed(),
            forall|d2: SharedDesc<BufferPayload>|
                #[trigger] old(table).shared_valid(d2) ==> final(table).shared_valid(d2),
            forall|d2: crate::descriptor::StrongDesc<BufferPayload>|
                #[trigger] old(table).strong_valid(d2) ==> final(table).strong_valid(d2),
            r is Err ==> *final(table) == *old(table),
            (r is Err && r->Err_0 == SceneBuildError::InstanceIdOutOfRange) <==> flat_instances(
                self.groups@,
            ).len() > INSTANCE_MASK,
            (r is Err && r->Err_0 == SceneBuildError::TableFull) <==> (flat_instances(
                self.groups@,
            ).len() <= INSTANCE_MASK && old(table).spec_free_room() < 2),
            r is Ok ==> {
                let cs = r->Ok_0;
                &&& final(table).spec_free_room() == old(table).spec_free_room() - 2
                &&& final(table).shared_valid(cs.scene)
                &&& cs.scene.spec_content() is SceneData
                &&& cs.scene.spec_content()->SceneData_0.camera == camera
                &&& cs.scene.spec_content()->SceneData_0.wf(*final(table))
                &&& cs.scene.spec_content()->SceneData_0.spec_instances() == flat_instances(
                    self.groups@,
                )
                &&& (forall|i: int|
                    0 <= i < flat_instances(self.groups@).len() ==> (#[trigger] flat_instances(
                        self.groups@,
                    )[i]).wf(*final(table)))
                &&& cs.instance_total_count == flat_instances(self.groups@).len()
                &&& cs.draws@.len() == self.groups@.len()
                &&& (forall|g: int|
                    0 <= g < self.groups@.len() ==> {
                        &&& (#[trigger] cs.draws@[g]).model == self.groups@[g].model
                        &&& cs.draws@[g].model.wf(*final(table))
                        &&& cs.draws@[g].instance_start == flat_instances(
                            self.groups@.subrange(0, g),
                        ).len()
                        &&& cs.draws@[g].instance_count == self.groups@[g].instances@.len()
                    })
            },
    {
        let CpuSceneAccum { groups: mut remaining } = self;
        let ghost all_groups = remaining@;
        let n = remaining.len();
        let mut draws: Vec<CpuDraw> = Vec::new();
        let mut instance_data: Vec<Instance> = Vec::new();
        let mut p: usize = 0;
        while p < n
            invariant
                all_groups == self.groups@,
                n == all_groups.len(),
                p <= n,
                *table == *old(table),
                table.wf(),
                remaining@ == all_groups.subrange(p as int, n as int),
                draws@.len() == p,
                instance_data@ == flat_instances(all_groups.subrange(0, p as int)),
                instance_data@.len() <= INSTANCE_MASK,
                forall|g: int|
                    0 <= g < n ==> (#[trigger] all_groups[g]).model.wf(*table),
                forall|g: int, i: int|
                    0 <= g < n && 0 <= i < all_groups[g].instances@.len()
                        ==> (#[trigger] all_groups[g].instances@[i]).wf(*table),
                forall|i: int|
                    0 <= i < instance_data@.len() ==> (#[trigger] instance_data@[i]).wf(*table),
                forall|g: int|
                    0 <= g < p ==> {
                        &&& (#[trigger] draws@[g]).model == all_groups[g].model
                        &&& draws@[g].instance_start == flat_instances(
                            all_groups.subrange(0, g),
                        ).len()
                        &&& draws@[g].instance_count == all_groups[g].instances@.len()
                    },
            decreases n - p,
        {
            proof {
                assert(remaining@[0] == all_groups[p as int]);
            }
            let mut group = remaining.remove(0);
            let start = instance_data.len();
            let count = group.instances.len();
            if count > (INSTANCE_MASK as usize) - start {
                proof {
                    lemma_flat_instances_push(all_groups.subrange(0, p as int), all_groups[p as int]);
                    assert(all_groups.subrange(0, p as int + 1) =~= all_groups.subrange(
                        0,
                        p as int,
                    ).push(all_groups[p as int]));
                    assert(flat_instances(all_groups.subrange(0, p as int + 1)).len() == start
                        + count);
                    lemma_flat_split(all_groups, p as int + 1);
                    assert(flat_instances(all_groups).len() > INSTANCE_MASK);
                }
                return Err(SceneBuildError::InstanceIdOutOfRange);
            }
            draws.push(
                CpuDraw { model: group.model, instance_start: start as u32, instance_count: count as u32 },
            );
            instance_data.append(&mut group.instances);
            proof {
                lemma_flat_instances_push(all_groups.subrange(0, p as int), all_groups[p as int]);
                assert(all_groups.subrange(0, p as int + 1) =~= all_groups.subrange(
                    0,
                    p as int,
                ).push(all_groups[p as int]));
                assert(remaining@ =~= all_groups.subrange(p as int + 1, n as int));
            }
            p += 1;
        }
        proof {
            assert(all_groups.subrange(0, n as int) =~= all_groups);
        }
        if table.free_room() < 2 {
            return Err(SceneBuildError::TableFull);
        }
        let ghost t0 = *table;
        let total = instance_data.len() as u32;
        let ghost flat = instance_data@;
        let instances_owned = match table.allocate(BufferPayload::Instances(instance_data)) {
            Ok(d) => d,
            Err(_) => vstd::pervasive::unreached(),
        };
        let ghost t1 = *table;
        let instances_shared = instances_owned.to_shared();
        let instances_strong = table.to_strong(&instances_shared);
        let ghost t2 = *table;
        let scene = Scene { instances: instances_strong, camera };
        let scene_owned = match table.allocate(BufferPayload::SceneData(scene)) {
            Ok(d) => d,
            Err(_) => vstd::pervasive::unreached(),
        };
        let ghost t3 = *table;
        let scene_shared = scene_owned.to_shared();
        proof {
            assert(crate::descriptor::slot_unchanged(t2, t3, instances_shared.spec_index()));
        }
        table.drop_shared(instances_shared);
        let cs = CpuScene {
            draws,
            instance_total_count: total,
            camera,
            scene: scene_shared,
        };
        proof {
            let tf = *table;
            let ins_i = instances_shared.spec_index();
            let scn_i = cs.scene.spec_index();
            assert(crate::descriptor::slot_unchanged(t2, t3, ins_i));
            assert(crate::descriptor::slot_unchanged(t3, tf, scn_i));
            assert(tf.shared_valid(cs.scene));
            assert(tf.strong_valid(scene.instances)) by {
                assert(t3.refcount_at(ins_i) == 2);
            }
            assert forall|d2: SharedDesc<BufferPayload>|
                #[trigger] t0.shared_valid(d2) implies tf.shared_valid(d2) by {
                let j = d2.spec_index();
                assert(t1.shared_valid(d2));
                assert(t2.shared_valid(d2));
                assert(t3.shared_valid(d2));
                assert(j != ins_i);
                assert(crate::descriptor::slot_unchanged(t3, tf, j));
            }
            assert forall|d2: crate::descriptor::StrongDesc<BufferPayload>|
                #[trigger] t0.strong_valid(d2) implies tf.strong_valid(d2) by {
                let j = d2.spec_index();
                assert(t1.strong_valid(d2));
                assert(t2.strong_valid(d2));
                assert(t3.strong_valid(d2));
                assert(j != ins_i);
                assert(crate::descriptor::slot_unchanged(t3, tf, j));
            }
            assert forall|i: int| 0 <= i < flat_instances(all_groups).len() implies (
            #[trigger] flat_instances(all_groups)[i]).wf(tf) by {
                let inst = flat_instances(all_groups)[i];
                assert(inst.wf(t0));
                assert(t0.strong_valid(inst.model));
                assert(t0.strong_valid(inst.model.spec_content()->ModelData_0.triangles));
                assert(t0.strong_valid(inst.model.spec_content()->ModelData_0.vertices));
                assert(t0.strong_valid(
                    inst.model.spec_content()->ModelData_0.dyn_material.spec_desc(),
                ));
            }
            assert forall|g: int| 0 <= g < all_groups.len() implies (#[trigger] cs.draws@[g]).model.wf(
                tf,
            ) by {
                let m = cs.draws@[g].model;
                assert(m == all_groups[g].model);
                assert(m.wf(t0));
                assert(t0.shared_valid(m.model));
                assert(t0.shared_valid(m.indices));
                assert(t0.strong_valid(m.spec_header().triangles));
                assert(t0.strong_valid(m.spec_header().vertices));
                assert(t0.strong_valid(m.spec_header().dyn_material.spec_desc()));
            }
        }
        Ok(cs)
    }
}

} // verus!
