//! A voxel ray-tracing renderer core, modelled as plain data and verified
//! state transitions.
//!
//! Scene geometry is accumulated into append-only shared buffers by the
//! geometry store ([`engine::geometry`]), wrapped into one bottom-level
//! acceleration structure per voxel type by the BLAS manager
//! ([`engine::blas`]), instanced into the top-level acceleration structure
//! and assembled into a binding set here, and scheduled across in-flight
//! frames by [`engine::render`]. The GPU itself is an external
//! collaborator: every function in this crate works on plain values
//! (handles, counts, buffer contents) and states exactly how each
//! operation changes them, so the device-facing driver only has to carry
//! the results across.

pub mod engine;

use crate::engine::blas::BlasEntry;
use crate::engine::blas::BlasManager;
use crate::engine::blas::find_blas;
use crate::engine::geometry::GeometryManager;
use crate::engine::geometry::RenderObject;
use crate::engine::geometry::StoreView;
use crate::engine::geometry::find_id;
use crate::engine::geometry::lemma_find_id;
use crate::engine::voxel::RenderVoxelBlock;
use vstd::prelude::*;

verus! {

/// One instance of the top-level acceleration structure: which live block
/// it came from, whose type's acceleration structure it references, and
/// the custom index written into the instance — its position in the
/// object metadata buffer.
#[derive(Clone, Copy, PartialEq, Eq, Structural, Debug)]
pub struct InstanceRecord {
    pub block_index: usize,
    pub voxel_type: u64,
    pub custom_index: u32,
}

/// Everything the ray-tracing pass binds in its first group, in fixed
/// slot order: the top-level acceleration structure over `instances`, the
/// object metadata buffer `objects` (one record per instance, addressed
/// by custom index), and — carried alongside by the driver — the four
/// shared geometry buffers.
#[derive(Clone, PartialEq, Eq, Debug)]
pub struct BindingSet {
    pub instances: Vec<InstanceRecord>,
    pub objects: Vec<RenderObject>,
}

/// The binding cache of the ray-tracing pass: the set assembled last time
/// every input was present, or nothing.
#[derive(Clone, PartialEq, Eq, Debug)]
pub struct VoxelBindings {
    pub bind_group: Option<BindingSet>,
}

impl Default for VoxelBindings {
    /// Before the first assembly there is no binding set.
    fn default() -> (r: Self)
        ensures
            r.bind_group is None,
    {
        VoxelBindings { bind_group: None }
    }
}

/// A block appears in the rebuilt top-level acceleration structure
/// exactly when it is visible and its type's bottom-level acceleration
/// structure is ready (present in the manager). Blocks whose build is
/// still missing are silently skipped for the frame.
pub open spec fn block_emitted(b: RenderVoxelBlock, blas: Seq<BlasEntry>) -> bool {
    b.visible && find_blas(blas, b.voxel_type) >= 0
}

/// Positions of the emitted blocks among the first `n` blocks, in order.
pub open spec fn emitted_indices(
    blocks: Seq<RenderVoxelBlock>,
    blas: Seq<BlasEntry>,
    n: int,
) -> Seq<int>
    decreases n,
{
    if n <= 0 {
        Seq::empty()
    } else {
        let p = emitted_indices(blocks, blas, n - 1);
        if block_emitted(blocks[n - 1], blas) {
            p.push(n - 1)
        } else {
            p
        }
    }
}

/// Every emitted block among the first `n` has an object handle in the
/// geometry store.
pub open spec fn lookups_ok_upto(
    blocks: Seq<RenderVoxelBlock>,
    blas: Seq<BlasEntry>,
    geom: StoreView,
    n: int,
) -> bool {
    forall|i: int|
        0 <= i < n && block_emitted(#[trigger] blocks[i], blas) ==> find_id(
            geom.added_types,
            blocks[i].voxel_type,
        ) >= 0
}

/// Every emitted block has an object handle in the geometry store; the
/// only way the rebuild can fail.
pub open spec fn lookups_ok(
    blocks: Seq<RenderVoxelBlock>,
    blas: Seq<BlasEntry>,
    geom: StoreView,
) -> bool {
    lookups_ok_upto(blocks, blas, geom, blocks.len() as int)
}

/// The object metadata record of a voxel type: the quad offset of its
/// range in the shared index buffer and the offset of its range in the
/// material map.
pub open spec fn object_for(geom: StoreView, voxel_type: u64) -> RenderObject {
    let oid = find_id(geom.added_types, voxel_type);
    RenderObject {
        index: geom.index_map[oid],
        material_id: geom.material_index_map[oid],
    }
}

/// The instances and object records a rebuild emits.
pub open spec fn rebuild_emits(
    blocks: Seq<RenderVoxelBlock>,
    blas: Seq<BlasEntry>,
    geom: StoreView,
    instances: Seq<InstanceRecord>,
    objects: Seq<RenderObject>,
) -> bool {
    let em = emitted_indices(blocks, blas, blocks.len() as int);
    &&& instances.len() == em.len()
    &&& objects.len() == em.len()
    &&& forall|j: int|
        0 <= j < em.len() ==> #[trigger] instances[j] == (InstanceRecord {
            block_index: em[j] as usize,
            voxel_type: blocks[em[j]].voxel_type,
            custom_index: j as u32,
        })
    &&& forall|j: int|
        0 <= j < em.len() ==> #[trigger] objects[j] == object_for(
            geom,
            blocks[em[j]].voxel_type,
        )
}

/// Rebuild the top-level acceleration structure's instance list and the
/// object metadata buffer from the current live blocks.
///
/// Every visible block whose type has a ready bottom-level acceleration
/// structure yields exactly one instance, in block order, with its custom
/// index equal to its position in the metadata buffer; a block without
/// one is skipped for this frame, and never appears as an instance. An
/// empty block list yields an empty (and legal) instance list, not a
/// failure. The rebuild fails only when an emitted block's type has no
/// object handle in the geometry store.
pub fn rebuild(
    blas_manager: &BlasManager,
    geometry_manager: &GeometryManager,
    blocks: &Vec<RenderVoxelBlock>,
) -> (r: Option<(Vec<InstanceRecord>, Vec<RenderObject>)>)
    requires
        geometry_manager@.wf(),
        blocks@.len() <= u32::MAX,
    ensures
        r is Some <==> lookups_ok(blocks@, blas_manager@.blas, geometry_manager@),
        match r {
            Some(out) => rebuild_emits(
                blocks@,
                blas_manager@.blas,
                geometry_manager@,
                out.0@,
                out.1@,
            ),
            None => true,
        },
        // readiness gating: an instance always references a ready
        // bottom-level acceleration structure
        match r {
            Some(out) => forall|j: int|
                0 <= j < out.0@.len() ==> find_blas(
                    blas_manager@.blas,
                    (#[trigger] out.0@[j]).voxel_type,
                ) >= 0,
            None => true,
        },
{
    let ghost bs = blocks@;
    let ghost bl = blas_manager@.blas;
    let ghost g = geometry_manager@;
    let mut instances: Vec<InstanceRecord> = Vec::new();
    let mut objects: Vec<RenderObject> = Vec::new();
    let mut i: usize = 0;
    while i < blocks.len()
        invariant
            geometry_manager@ == g,
            blas_manager@.blas == bl,
            blocks@ == bs,
            g.wf(),
            bs.len() <= u32::MAX,
            i <= bs.len(),
            lookups_ok_upto(bs, bl, g, i as int),
            instances@.len() == emitted_indices(bs, bl, i as int).len(),
            objects@.len() == instances@.len(),
            forall|j: int|
                0 <= j < instances@.len() ==> #[trigger] instances@[j] == (InstanceRecord {
                    block_index: emitted_indices(bs, bl, i as int)[j] as usize,
                    voxel_type: bs[emitted_indices(bs, bl, i as int)[j]].voxel_type,
                    custom_index: j as u32,
                }),
            forall|j: int|
                0 <= j < objects@.len() ==> #[trigger] objects@[j] == object_for(
                    g,
                    bs[emitted_indices(bs, bl, i as int)[j]].voxel_type,
                ),
            forall|j: int|
                0 <= j < emitted_indices(bs, bl, i as int).len() ==> 0 <= #[trigger]
                    emitted_indices(bs, bl, i as int)[j] < i,
        decreases bs.len() - i,
    {
        let block = blocks[i];
        proof {
            lemma_emitted_step(bs, bl, i as int);
        }
        if block.visible {
            let has_blas = match blas_manager.get(block.voxel_type) {
                Some(_) => true,
                None => false,
            };
            if has_blas {
                match geometry_manager.get_object_id(block.voxel_type) {
                    Some(oid) => {
                        proof {
                            lemma_find_id(g.added_types, block.voxel_type);
                        }
                        let index_id = match geometry_manager.get_index(oid) {
                            Some(x) => x,
                            None => {
                                proof {
                                    assert(false);
                                }
                                0
                            },
                        };
                        let material_id = match geometry_manager.get_index_material(oid) {
                            Some(x) => x,
                            None => {
                                proof {
                                    assert(false);
                                }
                                0
                            },
                        };
                        let custom = instances.len();
                        instances.push(
                            InstanceRecord {
                                block_index: i,
                                voxel_type: block.voxel_type,
                                custom_index: custom as u32,
                            },
                        );
                        objects.push(RenderObject { index: index_id, material_id });
                    },
                    None => {
                        proof {
                            lemma_find_id(g.added_types, block.voxel_type);
                        }
                        return None;
                    },
                }
            }
        }
        i += 1;
    }
    proof {
        lemma_emitted_are_emitted(bs, bl, bs.len() as int);
    }
    Some((instances, objects))
}

/// Every emitted position names a block that is emitted.
proof fn lemma_emitted_are_emitted(blocks: Seq<RenderVoxelBlock>, blas: Seq<BlasEntry>, n: int)
    ensures
        forall|j: int|
            0 <= j < emitted_indices(blocks, blas, n).len() ==> 0 <= #[trigger] emitted_indices(
                blocks,
                blas,
                n,
            )[j] < n && block_emitted(blocks[emitted_indices(blocks, blas, n)[j]], blas),
    decreases n,
{
    if n > 0 {
        lemma_emitted_are_emitted(blocks, blas, n - 1);
        let p = emitted_indices(blocks, blas, n - 1);
        let e = emitted_indices(blocks, blas, n);
        assert forall|j: int| 0 <= j < e.len() implies 0 <= #[trigger] e[j] < n
            && block_emitted(blocks[e[j]], blas) by {
            if block_emitted(blocks[n - 1], blas) {
                assert(e == p.push(n - 1));
                if j < p.len() {
                    assert(e[j] == p[j]);
                } else {
                    assert(e[j] == n - 1);
                }
            } else {
                assert(e == p);
            }
        }
    }
}

/// Splitting the emitted positions at the last block.
proof fn lemma_emitted_step(blocks: Seq<RenderVoxelBlock>, blas: Seq<BlasEntry>, i: int)
    requires
        0 <= i,
    ensures
        emitted_indices(blocks, blas, i + 1) == if block_emitted(blocks[i], blas) {
            emitted_indices(blocks, blas, i).push(i)
        } else {
            emitted_indices(blocks, blas, i)
        },
{
}

/// Assemble the binding set of the ray-tracing pass, in fixed slot order:
/// the top-level acceleration structure, the object metadata buffer, and
/// the shared index, vertex, normal, material and material-map buffers.
///
/// The previous set is discarded and rebuilt from scratch. The result is
/// present exactly when there is at least one live block, every emitted
/// block's type has an object handle, and all five shared buffers hold
/// data; when anything is missing, no set is assembled and the caller
/// keeps showing the previous frame's content.
pub fn prepare_bindings(
    voxel_bindings: &mut VoxelBindings,
    blas_manager: &BlasManager,
    geometry_manager: &GeometryManager,
    blocks: &Vec<RenderVoxelBlock>,
)
    requires
        geometry_manager@.wf(),
        blocks@.len() <= u32::MAX,
    ensures
        final(voxel_bindings).bind_group is Some <==> {
            &&& blocks@.len() > 0
            &&& lookups_ok(blocks@, blas_manager@.blas, geometry_manager@)
            &&& geometry_manager@.vertices_len > 0
            &&& geometry_manager@.normals_len > 0
            &&& geometry_manager@.indices.len() > 0
            &&& geometry_manager@.added_materials.len() > 0
            &&& geometry_manager@.material_map.len() > 0
        },
        match final(voxel_bindings).bind_group {
            Some(set) => rebuild_emits(
                blocks@,
                blas_manager@.blas,
                geometry_manager@,
                set.instances@,
                set.objects@,
            ),
            None => true,
        },
{
    voxel_bindings.bind_group = None;

    if blocks.len() == 0 {
        return ;
    }
    let out = match rebuild(blas_manager, geometry_manager, blocks) {
        Some(out) => out,
        None => {
            return ;
        },
    };
    if geometry_manager.vertices() == 0 {
        return ;
    }
    if geometry_manager.normals() == 0 {
        return ;
    }
    if geometry_manager.indices().len() == 0 {
        return ;
    }
    if geometry_manager.materials() == 0 {
        return ;
    }
    if geometry_manager.material_map().len() == 0 {
        return ;
    }
    voxel_bindings.bind_group = Some(BindingSet { instances: out.0, objects: out.1 });
}

/// Restart the temporal accumulation when the camera, its transform or
/// its projection changed this frame: the saturated frame counter makes
/// the accumulation pass start over.
pub fn reset_frame_count(changed: bool, frame_count: &mut u32)
    ensures
        *final(frame_count) == if changed {
            u32::MAX
        } else {
            *old(frame_count)
        },
{
    if changed {
        *frame_count = u32::MAX;
    }
}

/// Every type with a bottom-level acceleration structure is an ingested
/// type (builds read the type's geometry, and eviction removes only the
/// compact lookup entry, never the object handle).
pub open spec fn blas_types_ingested(blas: Seq<BlasEntry>, geom: StoreView) -> bool {
    forall|p: int|
        0 <= p < blas.len() ==> geom.added_types.contains((#[trigger] blas[p]).id)
}

/// Binding completeness: whenever every built acceleration structure
/// belongs to an ingested type — which the build path guarantees, since a
/// build reads the type's geometry and eviction keeps object handles —
/// the rebuild cannot fail, and the binding set is assembled exactly when
/// vertices, normals, indices, materials, the material map and at least
/// one live block are all present.
pub proof fn lemma_binding_completeness(
    blocks: Seq<RenderVoxelBlock>,
    blas: Seq<BlasEntry>,
    geom: StoreView,
)
    requires
        blas_types_ingested(blas, geom),
    ensures
        lookups_ok(blocks, blas, geom),
{
    assert forall|i: int|
        0 <= i < blocks.len() && block_emitted(#[trigger] blocks[i], blas) implies find_id(
        geom.added_types,
        blocks[i].voxel_type,
    ) >= 0 by {
        crate::engine::blas::lemma_find_blas(blas, blocks[i].voxel_type);
        let p = find_blas(blas, blocks[i].voxel_type);
        assert(geom.added_types.contains(blas[p].id));
        lemma_find_id(geom.added_types, blocks[i].voxel_type);
    }
}

} // verus!
