//! Scene instance rebuild and binding assembly: readiness gating, custom
//! indices, the completeness of `prepare_bindings`, and eviction while an
//! object still references its type.

use nevr::engine::blas::BlasManager;
use nevr::engine::blas::prepare_blas;
use nevr::engine::geometry::GeometryManager;
use nevr::engine::geometry::prepare_geometry;
use nevr::engine::geometry::prepare_materials;
use nevr::engine::voxel::RelativeVoxel;
use nevr::engine::voxel::RenderVoxelBlock;
use nevr::engine::voxel::VoxelType;
use nevr::VoxelBindings;
use nevr::prepare_bindings;
use nevr::rebuild;

const M0: u64 = 70;

fn block(voxel_type: u64) -> RenderVoxelBlock {
    RenderVoxelBlock { voxel_type, visible: true }
}

fn scene_with_type(id: u64) -> (GeometryManager, BlasManager) {
    let mut gm = GeometryManager::default();
    prepare_materials(&mut gm, &vec![M0]);
    gm.ingest(&vec![(id, VoxelType::new(2, vec![RelativeVoxel::new(M0, [0, 0, 0])]))]);
    let mut bm = BlasManager::default();
    prepare_blas(&mut bm, &gm, &vec![], &vec![id]);
    (gm, bm)
}

#[test]
fn zero_objects_rebuild_to_an_empty_tlas() {
    let (gm, bm) = scene_with_type(1);

    let (instances, objects) = rebuild(&bm, &gm, &vec![]).expect("an empty scene is legal");

    assert!(instances.is_empty());
    assert!(objects.is_empty());
}

#[test]
fn two_objects_of_one_type_get_distinct_custom_indices() {
    let (gm, bm) = scene_with_type(1);
    let blocks = vec![block(1), block(1)];

    let (instances, objects) = rebuild(&bm, &gm, &blocks).unwrap();

    assert_eq!(instances.len(), 2);
    assert_eq!(objects.len(), 2);
    // both instances reference the same type's acceleration structure
    assert_eq!(instances[0].voxel_type, 1);
    assert_eq!(instances[1].voxel_type, 1);
    // with distinct transforms carried by their distinct blocks
    assert_eq!(instances[0].block_index, 0);
    assert_eq!(instances[1].block_index, 1);
    assert_eq!(instances[0].custom_index, 0);
    assert_eq!(instances[1].custom_index, 1);
    assert_eq!(objects[0], objects[1]);
}

#[test]
fn object_without_ready_blas_never_becomes_an_instance() {
    let (gm, bm) = scene_with_type(1);
    // block 99 references a type that was never built
    let blocks = vec![block(99), block(1)];

    let (instances, _) = rebuild(&bm, &gm, &blocks).unwrap();

    assert_eq!(instances.len(), 1);
    assert_eq!(instances[0].voxel_type, 1);
    assert_eq!(instances[0].block_index, 1);
}

#[test]
fn hidden_object_is_excluded() {
    let (gm, bm) = scene_with_type(1);
    let blocks = vec![RenderVoxelBlock { voxel_type: 1, visible: false }, block(1)];

    let (instances, _) = rebuild(&bm, &gm, &blocks).unwrap();

    assert_eq!(instances.len(), 1);
    assert_eq!(instances[0].block_index, 1);
}

#[test]
fn object_records_carry_geometry_offsets() {
    let mut gm = GeometryManager::default();
    prepare_materials(&mut gm, &vec![M0]);
    gm.ingest(&vec![
        (1, VoxelType::new(2, vec![RelativeVoxel::new(M0, [0, 0, 0])])),
        (2, VoxelType::new(1, vec![RelativeVoxel::new(M0, [0, 0, 0])])),
    ]);
    let mut bm = BlasManager::default();
    prepare_blas(&mut bm, &gm, &vec![], &vec![1, 2]);

    let (_, objects) = rebuild(&bm, &gm, &vec![block(1), block(2)]).unwrap();

    assert_eq!(objects[0].index, 0);
    assert_eq!(objects[0].material_id, 0);
    assert_eq!(objects[1].index, 12);
    assert_eq!(objects[1].material_id, 12);
}

#[test]
fn prepare_assembles_when_everything_is_present() {
    let (gm, bm) = scene_with_type(1);
    let mut bindings = VoxelBindings::default();

    prepare_bindings(&mut bindings, &bm, &gm, &vec![block(1)]);

    let set = bindings.bind_group.expect("all inputs are present");
    assert_eq!(set.instances.len(), 1);
    assert_eq!(set.objects.len(), 1);
}

#[test]
fn prepare_without_objects_keeps_no_binding_set() {
    let (gm, bm) = scene_with_type(1);
    let mut bindings = VoxelBindings::default();

    prepare_bindings(&mut bindings, &bm, &gm, &vec![]);

    assert!(bindings.bind_group.is_none());
}

#[test]
fn prepare_without_geometry_keeps_no_binding_set() {
    // a type of zero voxels leaves every shared buffer empty
    let mut gm = GeometryManager::default();
    gm.ingest(&vec![(1, VoxelType::new(1, vec![]))]);
    let mut bm = BlasManager::default();
    prepare_blas(&mut bm, &gm, &vec![], &vec![1]);
    let mut bindings = VoxelBindings::default();

    prepare_bindings(&mut bindings, &bm, &gm, &vec![block(1)]);

    assert!(bindings.bind_group.is_none());
}

#[test]
fn prepare_without_materials_keeps_no_binding_set() {
    // materials ingested but no geometry: the index buffer stays empty
    let mut gm = GeometryManager::default();
    prepare_materials(&mut gm, &vec![M0]);
    let bm = BlasManager::default();
    let mut bindings = VoxelBindings::default();

    prepare_bindings(&mut bindings, &bm, &gm, &vec![block(1)]);

    assert!(bindings.bind_group.is_none());
}

#[test]
fn prepare_discards_the_previous_set_when_an_input_disappears() {
    let (gm, bm) = scene_with_type(1);
    let mut bindings = VoxelBindings::default();
    prepare_bindings(&mut bindings, &bm, &gm, &vec![block(1)]);
    assert!(bindings.bind_group.is_some());

    prepare_bindings(&mut bindings, &bm, &gm, &vec![]);
    assert!(bindings.bind_group.is_none());
}

#[test]
fn evicted_type_is_treated_as_missing_blas() {
    let (mut gm, mut bm) = scene_with_type(1);
    let blocks = vec![block(1)];

    // the host unloads the type while the block still references it
    prepare_geometry(&mut gm, &vec![1], &vec![]);
    prepare_blas(&mut bm, &gm, &vec![1], &vec![]);

    let mut bindings = VoxelBindings::default();
    prepare_bindings(&mut bindings, &bm, &gm, &blocks);

    // the object is excluded, nothing crashes, and the set is still
    // assembled from the remaining (empty) instance list
    let set = bindings.bind_group.expect("the shared buffers still hold data");
    assert!(set.instances.is_empty());
    assert!(set.objects.is_empty());
}
