//! Geometry store behaviour: ingestion, idempotence, append-only ranges,
//! eviction and the exact shared-buffer contents of one cube.

use nevr::engine::geometry::GeometryManager;
use nevr::engine::geometry::prepare_geometry;
use nevr::engine::geometry::prepare_materials;
use nevr::engine::voxel::RelativeVoxel;
use nevr::engine::voxel::VoxelType;

const M0: u64 = 70;
const M1: u64 = 71;

fn one_voxel_type(size: u32, material: u64) -> VoxelType {
    VoxelType::new(size, vec![RelativeVoxel::new(material, [0, 0, 0])])
}

fn store_with_m0() -> GeometryManager {
    let mut gm = GeometryManager::default();
    prepare_materials(&mut gm, &vec![M0]);
    gm
}

#[test]
fn ingest_records_cube_counts() {
    let mut gm = store_with_m0();
    gm.ingest(&vec![(1, one_voxel_type(2, M0))]);

    let record = gm.lookup(1).expect("type 1 was ingested");
    assert_eq!(record.vertex_count, 24);
    assert_eq!(record.index_count, 36);
    assert_eq!(record.object_id, 0);
    assert_eq!(record.index_offset, 0);
    assert_eq!(record.material_offset, 0);

    // 24 vertices and normals of 4 floats each, 12 index quads, one
    // material-map entry per triangle
    assert_eq!(gm.vertices(), 96);
    assert_eq!(gm.normals(), 96);
    assert_eq!(gm.indices().len(), 48);
    assert_eq!(gm.material_map().len(), 12);
}

#[test]
fn ingest_writes_exact_index_quads() {
    let canonical: [u32; 36] = [
        2, 0, 1, 2, 1, 3, // first face
        6, 4, 5, 6, 5, 7, // second face
        10, 8, 9, 10, 9, 11, // third face
        13, 12, 14, 15, 13, 14, // fourth face
        17, 16, 18, 19, 17, 18, // fifth face
        21, 20, 22, 23, 21, 22, // sixth face
    ];
    let mut gm = store_with_m0();
    gm.ingest(&vec![(1, one_voxel_type(1, M0))]);

    let mut expected: Vec<u32> = Vec::new();
    for t in 0..12 {
        expected.push(canonical[3 * t]);
        expected.push(canonical[3 * t + 1]);
        expected.push(canonical[3 * t + 2]);
        expected.push(0);
    }
    assert_eq!(gm.indices().clone(), expected);
    assert_eq!(gm.material_map().clone(), vec![0u32; 12]);
}

#[test]
fn second_voxel_rebases_indices() {
    let two_voxels = VoxelType::new(
        2,
        vec![
            RelativeVoxel::new(M0, [0, 0, 0]),
            RelativeVoxel::new(M0, [1, 0, 0]),
        ],
    );
    let mut gm = store_with_m0();
    gm.ingest(&vec![(1, two_voxels)]);

    assert_eq!(gm.indices().len(), 96);
    // the second voxel's quads index past the 24 vertices of the first
    assert_eq!(gm.indices()[48], gm.indices()[0] + 24);
    assert_eq!(gm.indices()[49], gm.indices()[1] + 24);
    assert_eq!(gm.indices()[51], 0);
}

#[test]
fn ingest_twice_is_idempotent() {
    let batch = vec![(1u64, one_voxel_type(2, M0)), (2u64, one_voxel_type(1, M0))];
    let mut gm = store_with_m0();
    gm.ingest(&batch);

    let indices_once = gm.indices().clone();
    let material_map_once = gm.material_map().clone();
    let vertices_once = gm.vertices();
    let record_once = gm.lookup(1).unwrap();

    gm.ingest(&batch);

    assert_eq!(gm.indices().clone(), indices_once);
    assert_eq!(gm.material_map().clone(), material_map_once);
    assert_eq!(gm.vertices(), vertices_once);
    assert_eq!(gm.normals(), vertices_once);
    assert_eq!(gm.lookup(1).unwrap(), record_once);
    assert_eq!(gm.get_object_id(1), Some(0));
    assert_eq!(gm.get_object_id(2), Some(1));
}

#[test]
fn later_ingestion_appends_after_earlier_ranges() {
    let mut gm = store_with_m0();
    gm.ingest(&vec![(1, one_voxel_type(2, M0))]);

    let indices_a = gm.indices().clone();
    let record_a = gm.lookup(1).unwrap();

    gm.ingest(&vec![(2, one_voxel_type(1, M0))]);

    // the earlier type's range is an untouched prefix
    assert_eq!(&gm.indices()[..indices_a.len()], &indices_a[..]);
    assert_eq!(gm.lookup(1).unwrap(), record_a);

    // the later type's ranges start where the earlier ones ended
    let record_b = gm.lookup(2).unwrap();
    assert_eq!(record_b.object_id, 1);
    assert_eq!(record_b.index_offset, 12);
    assert_eq!(record_b.material_offset, 12);
    assert!(record_a.index_offset < record_b.index_offset);
}

#[test]
fn material_map_uses_material_positions() {
    let mut gm = GeometryManager::default();
    prepare_materials(&mut gm, &vec![M0, M1]);
    assert_eq!(gm.index_of_material(M0), Some(0));
    assert_eq!(gm.index_of_material(M1), Some(1));
    assert_eq!(gm.index_of_material(99), None);
    assert_eq!(gm.materials(), 2);

    gm.ingest(&vec![(1, one_voxel_type(1, M1))]);
    assert_eq!(gm.material_map().clone(), vec![1u32; 12]);
}

#[test]
fn repeated_materials_are_not_duplicated() {
    let mut gm = GeometryManager::default();
    prepare_materials(&mut gm, &vec![M0, M0, M1, M0]);
    assert_eq!(gm.materials(), 2);
    prepare_materials(&mut gm, &vec![M1, M0]);
    assert_eq!(gm.materials(), 2);
}

#[test]
fn evict_drops_lookup_but_keeps_bytes_and_handles() {
    let mut gm = store_with_m0();
    gm.ingest(&vec![(1, one_voxel_type(2, M0))]);

    gm.evict(1);

    assert!(gm.lookup(1).is_none());
    assert!(gm.get_geometry_vertices(1).is_none());
    // the shared buffers and the object handle maps keep the data
    assert_eq!(gm.indices().len(), 48);
    assert_eq!(gm.vertices(), 96);
    assert_eq!(gm.get_object_id(1), Some(0));
    assert_eq!(gm.get_index(0), Some(0));
    // a handle that was never ingested has no object id and no ranges
    assert_eq!(gm.get_object_id(99), None);
    assert_eq!(gm.get_index(7), None);
    assert_eq!(gm.get_index_material(7), None);
}

#[test]
fn prepare_geometry_evicts_then_ingests() {
    let mut gm = store_with_m0();
    gm.ingest(&vec![(1, one_voxel_type(2, M0))]);

    prepare_geometry(&mut gm, &vec![1], &vec![(2, one_voxel_type(1, M0))]);

    assert!(gm.lookup(1).is_none());
    assert!(gm.lookup(2).is_some());
    assert_eq!(gm.get_object_id(2), Some(1));
}

#[test]
fn reingesting_evicted_type_restores_lookup_without_new_bytes() {
    let mut gm = store_with_m0();
    gm.ingest(&vec![(1, one_voxel_type(2, M0))]);
    gm.evict(1);

    gm.ingest(&vec![(1, one_voxel_type(2, M0))]);

    let record = gm.lookup(1).expect("lookup is restored");
    assert_eq!(record.vertex_count, 24);
    // no bytes were appended a second time
    assert_eq!(gm.indices().len(), 48);
    assert_eq!(gm.vertices(), 96);
}

#[test]
fn compact_counts_scale_with_voxel_count() {
    let three_voxels = VoxelType::new(
        3,
        vec![
            RelativeVoxel::new(M0, [0, 0, 0]),
            RelativeVoxel::new(M0, [1, 0, 0]),
            RelativeVoxel::new(M0, [2, 0, 0]),
        ],
    );
    let mut gm = store_with_m0();
    gm.ingest(&vec![(5, three_voxels)]);

    assert_eq!(gm.get_geometry_vertices(5), Some(72));
    assert_eq!(gm.get_geometry_indices(5), Some(108));
}
