//! BLAS manager behaviour: builds, the compaction state machine, its
//! budget, and removal of unloaded types.

use nevr::engine::blas::BlasManager;
use nevr::engine::blas::BlasState;
use nevr::engine::blas::MAX_COMPACTION_VERTICES_PER_FRAME;
use nevr::engine::blas::compact_blas;
use nevr::engine::blas::prepare_blas;
use nevr::engine::geometry::GeometryManager;
use nevr::engine::geometry::prepare_materials;
use nevr::engine::voxel::RelativeVoxel;
use nevr::engine::voxel::VoxelType;

const M0: u64 = 70;

fn store_with_types(ids: &[u64]) -> GeometryManager {
    let mut gm = GeometryManager::default();
    prepare_materials(&mut gm, &vec![M0]);
    let batch: Vec<(u64, VoxelType)> = ids
        .iter()
        .map(|id| (*id, VoxelType::new(2, vec![RelativeVoxel::new(M0, [0, 0, 0])])))
        .collect();
    gm.ingest(&batch);
    gm
}

#[test]
fn build_creates_building_entry_with_cost() {
    let gm = store_with_types(&[1]);
    let mut bm = BlasManager::default();

    prepare_blas(&mut bm, &gm, &vec![], &vec![1]);

    let entry = bm.get(1).expect("entry was built");
    assert_eq!(entry.state, BlasState::Building);
    // 24 compact vertices of 12 bytes, in 16-byte stride units
    assert_eq!(entry.vertex_count, 24 * 12 / 4 / 16);
    assert_eq!(entry.vertex_count, 4);
    assert_eq!(bm.queue_len(), 1);
}

#[test]
fn one_tick_with_budget_and_ready_query_compacts() {
    let gm = store_with_types(&[1]);
    let mut bm = BlasManager::default();
    prepare_blas(&mut bm, &gm, &vec![], &vec![1]);

    bm.tick_compaction(MAX_COMPACTION_VERTICES_PER_FRAME, &vec![1]);

    assert_eq!(bm.get(1).unwrap().state, BlasState::Compacted);
    assert_eq!(bm.queue_len(), 0);
}

#[test]
fn not_ready_entry_is_requeued_with_query_in_flight() {
    let gm = store_with_types(&[1]);
    let mut bm = BlasManager::default();
    prepare_blas(&mut bm, &gm, &vec![], &vec![1]);

    bm.tick_compaction(MAX_COMPACTION_VERTICES_PER_FRAME, &vec![]);

    // the size query was issued, the entry waits at the back of the queue
    assert_eq!(bm.get(1).unwrap().state, BlasState::PendingCompaction);
    assert_eq!(bm.queue_len(), 1);

    // once the device reports it ready, the next tick compacts it
    bm.tick_compaction(MAX_COMPACTION_VERTICES_PER_FRAME, &vec![1]);
    assert_eq!(bm.get(1).unwrap().state, BlasState::Compacted);
    assert_eq!(bm.queue_len(), 0);
}

#[test]
fn sufficient_budget_compacts_whole_queue_in_one_tick() {
    let gm = store_with_types(&[1, 2, 3]);
    let mut bm = BlasManager::default();
    prepare_blas(&mut bm, &gm, &vec![], &vec![1, 2, 3]);
    assert_eq!(bm.queue_len(), 3);

    // total cost is 3 entries of 4 vertices each
    bm.tick_compaction(12, &vec![1, 2, 3]);

    assert_eq!(bm.get(1).unwrap().state, BlasState::Compacted);
    assert_eq!(bm.get(2).unwrap().state, BlasState::Compacted);
    assert_eq!(bm.get(3).unwrap().state, BlasState::Compacted);
    assert_eq!(bm.queue_len(), 0);
}

#[test]
fn exhausted_budget_leaves_later_entries_for_the_next_tick() {
    let gm = store_with_types(&[1, 2]);
    let mut bm = BlasManager::default();
    prepare_blas(&mut bm, &gm, &vec![], &vec![1, 2]);

    // the first entry spends cost 4, reaching the budget of 1
    bm.tick_compaction(1, &vec![1, 2]);

    assert_eq!(bm.get(1).unwrap().state, BlasState::Compacted);
    assert_eq!(bm.get(2).unwrap().state, BlasState::Building);
    assert_eq!(bm.queue_len(), 1);

    bm.tick_compaction(1, &vec![1, 2]);
    assert_eq!(bm.get(2).unwrap().state, BlasState::Compacted);
    assert_eq!(bm.queue_len(), 0);
}

#[test]
fn removed_type_loses_entry_and_queued_work_is_dropped() {
    let gm = store_with_types(&[1, 2]);
    let mut bm = BlasManager::default();
    prepare_blas(&mut bm, &gm, &vec![], &vec![1, 2]);

    prepare_blas(&mut bm, &gm, &vec![1], &vec![]);
    assert!(bm.get(1).is_none());
    assert!(bm.get(2).is_some());

    // the stale queue entry of the removed type is dropped by the tick
    assert_eq!(bm.queue_len(), 2);
    bm.tick_compaction(MAX_COMPACTION_VERTICES_PER_FRAME, &vec![2]);
    assert_eq!(bm.queue_len(), 0);
    assert_eq!(bm.get(2).unwrap().state, BlasState::Compacted);
}

#[test]
fn compact_blas_uses_the_frame_budget() {
    let gm = store_with_types(&[1]);
    let mut bm = BlasManager::default();
    prepare_blas(&mut bm, &gm, &vec![], &vec![1]);

    compact_blas(&mut bm, &vec![1]);

    assert_eq!(bm.get(1).unwrap().state, BlasState::Compacted);
    assert_eq!(bm.queue_len(), 0);
}

#[test]
fn rebuilding_a_type_resets_its_state() {
    let gm = store_with_types(&[1]);
    let mut bm = BlasManager::default();
    prepare_blas(&mut bm, &gm, &vec![], &vec![1]);
    bm.tick_compaction(MAX_COMPACTION_VERTICES_PER_FRAME, &vec![1]);
    assert_eq!(bm.get(1).unwrap().state, BlasState::Compacted);

    prepare_blas(&mut bm, &gm, &vec![], &vec![1]);
    assert_eq!(bm.get(1).unwrap().state, BlasState::Building);
    assert_eq!(bm.queue_len(), 1);
}
