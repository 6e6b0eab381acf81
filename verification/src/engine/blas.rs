//! The BLAS manager: one bottom-level acceleration structure per voxel
//! type, shrunk after its initial build by an asynchronous, budgeted
//! compaction pipeline.
//!
//! Each entry walks the states `Building` (initial build issued, with
//! compaction allowed) to `PendingCompaction` (the non-blocking size query
//! is in flight) to `Compacted`. The walk is driven by a once-per-frame
//! tick over a FIFO queue: an entry whose query has not reported ready is
//! re-queued at the back with its in-flight flag set, so a stalled query
//! degrades performance but never blocks; the tick visits the queue at
//! most once per call and stops once its vertex-count budget is spent.

use crate::engine::geometry::GeometryManager;
use crate::engine::geometry::find_geom;
use std::collections::VecDeque;
use vstd::prelude::*;

verus! {

/// Vertex-count budget one compaction tick may spend.
pub const MAX_COMPACTION_VERTICES_PER_FRAME: u32 = 400_000;

/// Compaction progress of one bottom-level acceleration structure.
#[derive(Clone, Copy, PartialEq, Eq, Structural, Debug)]
pub enum BlasState {
    /// The initial build was issued; no compaction size query yet.
    Building,
    /// The asynchronous compaction size query is in flight.
    PendingCompaction,
    /// The compacted copy has replaced the initial build.
    Compacted,
}

/// One bottom-level acceleration structure, keyed by its voxel type.
#[derive(Clone, Copy, PartialEq, Eq, Structural, Debug)]
pub struct BlasEntry {
    pub id: u64,
    pub state: BlasState,
    pub vertex_count: u32,
}

/// One queued unit of compaction work: the type's handle, its approximate
/// vertex-count cost, and whether its size query is already in flight.
#[derive(Clone, Copy, PartialEq, Eq, Structural, Debug)]
pub struct CompactionQueueEntry {
    pub id: u64,
    pub vertex_count: u32,
    pub in_flight: bool,
}

/// The manager's mathematical state.
#[verifier::ext_equal]
pub ghost struct BlasView {
    pub blas: Seq<BlasEntry>,
    pub queue: Seq<CompactionQueueEntry>,
}

/// First position of the entry with handle `id`, or -1 if absent.
pub open spec fn find_blas(s: Seq<BlasEntry>, id: u64) -> int
    decreases s.len(),
{
    if s.len() == 0 {
        -1
    } else if s[0].id == id {
        0
    } else {
        let r = find_blas(s.drop_first(), id);
        if r < 0 {
            -1
        } else {
            r + 1
        }
    }
}

pub proof fn lemma_find_blas(s: Seq<BlasEntry>, id: u64)
    ensures
        find_blas(s, id) == -1 <==> forall|j: int| 0 <= j < s.len() ==> s[j].id != id,
        find_blas(s, id) != -1 ==> 0 <= find_blas(s, id) < s.len() && s[find_blas(s, id)].id
            == id,
        find_blas(s, id) != -1 ==> forall|j: int| 0 <= j < find_blas(s, id) ==> s[j].id != id,
    decreases s.len(),
{
    if s.len() > 0 && s[0].id != id {
        lemma_find_blas(s.drop_first(), id);
        assert(forall|j: int|
            0 <= j < s.drop_first().len() ==> #[trigger] s.drop_first()[j] == s[j + 1]);
        assert(forall|j: int| 1 <= j < s.len() ==> #[trigger] s[j] == s.drop_first()[j - 1]);
    }
}

pub proof fn lemma_find_blas_is(s: Seq<BlasEntry>, id: u64, i: int)
    requires
        0 <= i < s.len(),
        s[i].id == id,
        forall|j: int| 0 <= j < i ==> s[j].id != id,
    ensures
        find_blas(s, id) == i,
    decreases s.len(),
{
    if i > 0 {
        lemma_find_blas_is(s.drop_first(), id, i - 1);
    }
}

/// Insert-or-replace of an entry, keyed by its handle.
pub open spec fn blas_insert(s: Seq<BlasEntry>, e: BlasEntry) -> Seq<BlasEntry> {
    let i = find_blas(s, e.id);
    if i >= 0 {
        s.update(i, e)
    } else {
        s.push(e)
    }
}

/// Removal of the entry with handle `id`, if present.
pub open spec fn blas_remove(s: Seq<BlasEntry>, id: u64) -> Seq<BlasEntry> {
    let i = find_blas(s, id);
    if i >= 0 {
        s.remove(i)
    } else {
        s
    }
}

/// The entry with handle `id` moved to the given state, if present.
pub open spec fn blas_set_state(s: Seq<BlasEntry>, id: u64, st: BlasState) -> Seq<BlasEntry> {
    let i = find_blas(s, id);
    if i >= 0 {
        s.update(i, BlasEntry { id, state: st, vertex_count: s[i].vertex_count })
    } else {
        s
    }
}

/// Total vertex-count cost of a queue.
pub open spec fn queue_cost(q: Seq<CompactionQueueEntry>) -> int
    decreases q.len(),
{
    if q.len() == 0 {
        0
    } else {
        q[0].vertex_count + queue_cost(q.drop_first())
    }
}

pub proof fn lemma_queue_cost_nonneg(q: Seq<CompactionQueueEntry>)
    ensures
        queue_cost(q) >= 0,
    decreases q.len(),
{
    if q.len() > 0 {
        lemma_queue_cost_nonneg(q.drop_first());
    }
}

/// The approximate vertex-count cost the build derives from a compact
/// vertex buffer of `vertex_count` vertices: its byte size (three 4-byte
/// floats per vertex), in units of the build's 16-byte vertex stride.
pub open spec fn blas_cost(vertex_count: u32) -> u32 {
    ((3 * vertex_count) / 16) as u32
}

impl BlasView {
    pub open spec fn empty() -> BlasView {
        BlasView { blas: Seq::empty(), queue: Seq::empty() }
    }

    /// Well-formedness: one entry per handle, and both the map and the
    /// queue stay 32-bit countable.
    pub open spec fn wf(self) -> bool {
        &&& forall|i: int, j: int|
            0 <= i < j < self.blas.len() ==> (#[trigger] self.blas[i]).id
                != (#[trigger] self.blas[j]).id
        &&& self.blas.len() <= u32::MAX
        &&& self.queue.len() <= u32::MAX
    }

    /// One removal of the entry for an unloaded type.
    pub open spec fn remove_one(self, id: u64) -> BlasView {
        BlasView { blas: blas_remove(self.blas, id), ..self }
    }

    pub open spec fn remove_seq(self, removed: Seq<u64>) -> BlasView
        decreases removed.len(),
    {
        if removed.len() == 0 {
            self
        } else {
            self.remove_one(removed[0]).remove_seq(removed.drop_first())
        }
    }

    /// One initial build: the entry is (re)created in the `Building`
    /// state with the cost the compact vertex buffer gives, and one unit
    /// of compaction work is queued behind the existing ones.
    pub open spec fn build_one(self, id: u64, vertex_count: u32) -> BlasView {
        let cost = blas_cost(vertex_count);
        BlasView {
            blas: blas_insert(
                self.blas,
                BlasEntry { id, state: BlasState::Building, vertex_count: cost },
            ),
            queue: self.queue.push(
                CompactionQueueEntry { id, vertex_count: cost, in_flight: false },
            ),
        }
    }

    /// The builds of a batch of extracted types, reading each type's
    /// compact vertex count from its geometry entry.
    pub open spec fn build_seq(
        self,
        geometries: Seq<crate::engine::geometry::CompactGeometry>,
        extracted: Seq<u64>,
    ) -> BlasView
        decreases extracted.len(),
    {
        if extracted.len() == 0 {
            self
        } else {
            let vc = geometries[find_geom(geometries, extracted[0])].vertex_count;
            self.build_one(extracted[0], vc).build_seq(geometries, extracted.drop_first())
        }
    }

    /// One compaction tick: entries are taken from the front of the
    /// queue, at most as many as `pops` and only while the spent cost is
    /// below the budget. An entry whose type was unloaded is dropped. An
    /// entry whose size query was not yet issued has it issued (the state
    /// advances to `PendingCompaction`); if the poll reports the entry
    /// ready, the compacted copy replaces the build (the state advances to
    /// `Compacted`) and the entry's cost is spent, else the entry is
    /// re-queued at the back with its in-flight flag set.
    pub open spec fn tick_spec(
        self,
        ready: Seq<u64>,
        budget: u32,
        pops: nat,
        spent: int,
    ) -> BlasView
        decreases pops,
    {
        if pops == 0 || self.queue.len() == 0 || spent >= budget {
            self
        } else {
            let e = self.queue[0];
            let rest = BlasView { queue: self.queue.drop_first(), ..self };
            if find_blas(self.blas, e.id) < 0 {
                rest.tick_spec(ready, budget, (pops - 1) as nat, spent)
            } else {
                let queried = if e.in_flight {
                    rest.blas
                } else {
                    blas_set_state(rest.blas, e.id, BlasState::PendingCompaction)
                };
                if ready.contains(e.id) {
                    BlasView {
                        blas: blas_set_state(queried, e.id, BlasState::Compacted),
                        queue: rest.queue,
                    }.tick_spec(ready, budget, (pops - 1) as nat, spent + e.vertex_count)
                } else {
                    BlasView {
                        blas: queried,
                        queue: rest.queue.push(
                            CompactionQueueEntry {
                                id: e.id,
                                vertex_count: e.vertex_count,
                                in_flight: true,
                            },
                        ),
                    }.tick_spec(ready, budget, (pops - 1) as nat, spent)
                }
            }
        }
    }
}

/// One bottom-level acceleration structure and one queued compaction unit
/// per voxel type.
pub struct BlasManager {
    blas: Vec<BlasEntry>,
    compaction_queue: VecDeque<CompactionQueueEntry>,
}

impl View for BlasManager {
    type V = BlasView;

    closed spec fn view(&self) -> BlasView {
        BlasView { blas: self.blas@, queue: self.compaction_queue@ }
    }
}

impl Default for BlasManager {
    /// A new manager holds no acceleration structure and no queued work.
    fn default() -> (r: Self)
        ensures
            r@ == BlasView::empty(),
            r@.wf(),
    {
        let r = BlasManager { blas: Vec::new(), compaction_queue: VecDeque::new() };
        proof {
            assert(r@ =~= BlasView::empty());
        }
        r
    }
}

impl BlasManager {
    /// The entry of a voxel type, if one was built and not removed.
    pub fn get(&self, id: u64) -> (r: Option<&BlasEntry>)
        ensures
            match r {
                Some(e) => find_blas(self@.blas, id) >= 0 && *e == self@.blas[find_blas(
                    self@.blas,
                    id,
                )],
                None => find_blas(self@.blas, id) == -1,
            },
    {
        let mut i: usize = 0;
        while i < self.blas.len()
            invariant
                i <= self@.blas.len(),
                forall|j: int| 0 <= j < i ==> self@.blas[j].id != id,
            decreases self@.blas.len() - i,
        {
            if self.blas[i].id == id {
                proof {
                    lemma_find_blas_is(self@.blas, id, i as int);
                }
                return Some(&self.blas[i]);
            }
            i += 1;
        }
        proof {
            lemma_find_blas(self@.blas, id);
        }
        None
    }

    /// How many units of compaction work are queued.
    pub fn queue_len(&self) -> (n: usize)
        ensures
            n == self@.queue.len(),
    {
        self.compaction_queue.len()
    }

    fn find_entry(&self, id: u64) -> (r: Option<usize>)
        ensures
            match r {
                Some(i) => i < self@.blas.len() && i as int == find_blas(self@.blas, id)
                    && self@.blas[i as int].id == id,
                None => find_blas(self@.blas, id) == -1,
            },
    {
        let mut i: usize = 0;
        while i < self.blas.len()
            invariant
                i <= self@.blas.len(),
                forall|j: int| 0 <= j < i ==> self@.blas[j].id != id,
            decreases self@.blas.len() - i,
        {
            if self.blas[i].id == id {
                proof {
                    lemma_find_blas_is(self@.blas, id, i as int);
                }
                return Some(i);
            }
            i += 1;
        }
        proof {
            lemma_find_blas(self@.blas, id);
        }
        None
    }

    fn remove_entry(&mut self, id: u64)
        ensures
            final(self)@ == old(self)@.remove_one(id),
    {
        match self.find_entry(id) {
            Some(i) => {
                self.blas.remove(i);
                proof {
                    assert(self@ =~= old(self)@.remove_one(id));
                }
            },
            None => {
                proof {
                    assert(self@ =~= old(self)@.remove_one(id));
                }
            },
        }
    }

    fn insert_entry(&mut self, e: BlasEntry)
        ensures
            final(self)@.blas == blas_insert(old(self)@.blas, e),
            final(self)@.queue == old(self)@.queue,
    {
        match self.find_entry(e.id) {
            Some(i) => {
                self.blas[i] = e;
            },
            None => {
                self.blas.push(e);
            },
        }
    }

    /// One compaction tick. `ready` holds the handles whose size query
    /// the device reports complete; two ticks may well see different
    /// sets, so everything stated here holds for any of them.
    pub fn tick_compaction(&mut self, budget: u32, ready: &Vec<u64>)
        requires
            old(self)@.wf(),
        ensures
            final(self)@ == old(self)@.tick_spec(
                ready@,
                budget,
                old(self)@.queue.len(),
                0,
            ),
            final(self)@.wf(),
    {
        let ghost ov = self@;
        let ghost qlen = self@.queue.len();
        let queue_size = self.compaction_queue.len();
        let mut blocks: usize = 0;
        let mut spent: u64 = 0;
        while self.compaction_queue.len() > 0 && spent < budget as u64 && blocks < queue_size
            invariant
                self@.wf(),
                blocks <= queue_size,
                queue_size <= u32::MAX,
                spent <= blocks as u64 * 0xFFFF_FFFFu64,
                ov.tick_spec(ready@, budget, qlen, 0) == self@.tick_spec(
                    ready@,
                    budget,
                    (queue_size - blocks) as nat,
                    spent as int,
                ),
            decreases queue_size - blocks,
        {
            let ghost s_pre = self@;
            let ghost spent_pre = spent as int;
            let e = match self.compaction_queue.pop_front() {
                Some(e) => e,
                None => {
                    proof {
                        assert(false);
                    }
                    CompactionQueueEntry { id: 0, vertex_count: 0, in_flight: false }
                },
            };
            blocks += 1;
            proof {
                assert(s_pre.queue[0] == e);
            }
            match self.find_entry(e.id) {
                None => {
                    proof {
                        assert(self@ =~= (BlasView {
                            queue: s_pre.queue.drop_first(),
                            ..s_pre
                        }));
                    }
                },
                Some(i) => {
                    if !e.in_flight {
                        let vc = self.blas[i].vertex_count;
                        self.blas[i] = BlasEntry {
                            id: e.id,
                            state: BlasState::PendingCompaction,
                            vertex_count: vc,
                        };
                        proof {
                            assert(self@.blas =~= blas_set_state(
                                s_pre.blas,
                                e.id,
                                BlasState::PendingCompaction,
                            ));
                        }
                    }
                    let ghost queried = self@.blas;
                    let is_ready = ready_contains(ready, e.id);
                    if is_ready {
                        let j = match self.find_entry(e.id) {
                            Some(j) => j,
                            None => {
                                proof {
                                    lemma_find_blas(queried, e.id);
                                    lemma_set_state_facts(
                                        s_pre.blas,
                                        e.id,
                                        BlasState::PendingCompaction,
                                    );
                                    lemma_find_blas_same_ids(queried, s_pre.blas, e.id);
                                    assert(false);
                                }
                                0
                            },
                        };
                        let vc = self.blas[j].vertex_count;
                        self.blas[j] = BlasEntry {
                            id: e.id,
                            state: BlasState::Compacted,
                            vertex_count: vc,
                        };
                        spent = spent + e.vertex_count as u64;
                        proof {
                            assert(self@.blas =~= blas_set_state(
                                queried,
                                e.id,
                                BlasState::Compacted,
                            ));
                            assert(self@ =~= (BlasView {
                                blas: blas_set_state(queried, e.id, BlasState::Compacted),
                                queue: s_pre.queue.drop_first(),
                            }));
                        }
                    } else {
                        self.compaction_queue.push_back(
                            CompactionQueueEntry {
                                id: e.id,
                                vertex_count: e.vertex_count,
                                in_flight: true,
                            },
                        );
                        proof {
                            assert(self@ =~= (BlasView {
                                blas: queried,
                                queue: s_pre.queue.drop_first().push(
                                    CompactionQueueEntry {
                                        id: e.id,
                                        vertex_count: e.vertex_count,
                                        in_flight: true,
                                    },
                                ),
                            }));
                        }
                    }
                },
            }
        }
    }
}

/// Whether the readiness report names this handle.
fn ready_contains(ready: &Vec<u64>, id: u64) -> (r: bool)
    ensures
        r == ready@.contains(id),
{
    let mut i: usize = 0;
    while i < ready.len()
        invariant
            i <= ready@.len(),
            forall|j: int| 0 <= j < i ==> ready@[j] != id,
        decreases ready@.len() - i,
    {
        if ready[i] == id {
            return true;
        }
        i += 1;
    }
    false
}

/// Handles at equal positions decide the entry lookup.
proof fn lemma_find_blas_same_ids(h1: Seq<BlasEntry>, h2: Seq<BlasEntry>, id: u64)
    requires
        h1.len() == h2.len(),
        forall|p: int| 0 <= p < h1.len() ==> (#[trigger] h1[p]).id == h2[p].id,
    ensures
        find_blas(h1, id) == find_blas(h2, id),
    decreases h1.len(),
{
    if h1.len() > 0 && h1[0].id != id {
        assert(forall|j: int|
            0 <= j < h1.drop_first().len() ==> #[trigger] h1.drop_first()[j] == h1[j + 1]);
        assert(forall|j: int|
            0 <= j < h2.drop_first().len() ==> #[trigger] h2.drop_first()[j] == h2[j + 1]);
        lemma_find_blas_same_ids(h1.drop_first(), h2.drop_first(), id);
    }
}

/// Drop the entries of the removed types, then (re)build one entry per
/// extracted type from its compact geometry and queue its compaction.
pub fn prepare_blas(
    blas_manager: &mut BlasManager,
    geometry_manager: &GeometryManager,
    removed: &Vec<u64>,
    extracted: &Vec<u64>,
)
    requires
        old(blas_manager)@.wf(),
        forall|k: int|
            0 <= k < extracted@.len() ==> find_geom(
                geometry_manager@.geometries,
                #[trigger] extracted@[k],
            ) >= 0,
        old(blas_manager)@.queue.len() + extracted@.len() <= u32::MAX,
        old(blas_manager)@.blas.len() + extracted@.len() <= u32::MAX,
    ensures
        final(blas_manager)@ == old(blas_manager)@.remove_seq(removed@).build_seq(
            geometry_manager@.geometries,
            extracted@,
        ),
        final(blas_manager)@.wf(),
{
    let ghost ov = blas_manager@;
    let ghost r = removed@;
    let ghost x = extracted@;
    let ghost g = geometry_manager@.geometries;
    proof {
        assert(r.skip(0) =~= r);
    }
    let mut i: usize = 0;
    while i < removed.len()
        invariant
            i <= r.len(),
            removed@ == r,
            blas_manager@.wf(),
            blas_manager@.blas.len() <= ov.blas.len(),
            blas_manager@.queue == ov.queue,
            ov.remove_seq(r) == blas_manager@.remove_seq(r.skip(i as int)),
        decreases r.len() - i,
    {
        let ghost s = blas_manager@;
        proof {
            assert(r.skip(i as int)[0] == r[i as int]);
            assert(r.skip(i as int).drop_first() =~= r.skip(i as int + 1));
            lemma_remove_one_wf(s, r[i as int]);
        }
        blas_manager.remove_entry(removed[i]);
        i += 1;
    }
    proof {
        assert(r.skip(r.len() as int) =~= Seq::<u64>::empty());
        assert(x.skip(0) =~= x);
    }
    let ghost mid = blas_manager@;
    let mut t: usize = 0;
    while t < extracted.len()
        invariant
            t <= x.len(),
            extracted@ == x,
            geometry_manager@.geometries == g,
            forall|k: int| 0 <= k < x.len() ==> find_geom(g, #[trigger] x[k]) >= 0,
            blas_manager@.wf(),
            blas_manager@.blas.len() <= mid.blas.len() + t,
            mid.blas.len() + x.len() <= u32::MAX,
            blas_manager@.queue.len() == mid.queue.len() + t,
            mid.queue.len() + x.len() <= u32::MAX,
            mid.build_seq(g, x) == blas_manager@.build_seq(g, x.skip(t as int)),
        decreases x.len() - t,
    {
        let ghost s = blas_manager@;
        let id = extracted[t];
        proof {
            assert(x.skip(t as int)[0] == id);
            assert(x.skip(t as int).drop_first() =~= x.skip(t as int + 1));
        }
        let vc = match geometry_manager.get_geometry_vertices(id) {
            Some(vc) => vc,
            None => {
                proof {
                    assert(false);
                }
                0
            },
        };
        let cost: u32 = ((3 * vc as u64) / 16) as u32;
        proof {
            assert(cost == blas_cost(vc));
            lemma_build_one_wf(s, id, vc);
        }
        blas_manager.insert_entry(
            BlasEntry { id, state: BlasState::Building, vertex_count: cost },
        );
        push_queue_entry(blas_manager, CompactionQueueEntry {
            id,
            vertex_count: cost,
            in_flight: false,
        });
        proof {
            assert(blas_manager@ =~= s.build_one(id, vc));
        }
        t += 1;
    }
    proof {
        assert(x.skip(x.len() as int) =~= Seq::<u64>::empty());
    }
}

/// Queue one unit of compaction work behind the existing ones.
fn push_queue_entry(blas_manager: &mut BlasManager, e: CompactionQueueEntry)
    ensures
        final(blas_manager)@.queue == old(blas_manager)@.queue.push(e),
        final(blas_manager)@.blas == old(blas_manager)@.blas,
{
    blas_manager.compaction_queue.push_back(e);
}

/// Removal keeps the manager well-formed and the map no larger.
proof fn lemma_remove_one_wf(s: BlasView, id: u64)
    requires
        s.wf(),
    ensures
        s.remove_one(id).wf(),
        s.remove_one(id).blas.len() <= s.blas.len(),
        s.remove_one(id).queue == s.queue,
{
    lemma_find_blas(s.blas, id);
    let i = find_blas(s.blas, id);
    if i >= 0 {
        let g2 = s.blas.remove(i);
        assert(forall|p: int| 0 <= p < i ==> #[trigger] g2[p] == s.blas[p]);
        assert(forall|p: int| i <= p < g2.len() ==> #[trigger] g2[p] == s.blas[p + 1]);
    }
}

/// One build keeps the manager well-formed, growing the map by at most
/// one entry and the queue by exactly one.
proof fn lemma_build_one_wf(s: BlasView, id: u64, vertex_count: u32)
    requires
        s.wf(),
        s.blas.len() + 1 <= u32::MAX,
        s.queue.len() + 1 <= u32::MAX,
    ensures
        s.build_one(id, vertex_count).wf(),
        s.build_one(id, vertex_count).blas.len() <= s.blas.len() + 1,
        s.build_one(id, vertex_count).queue.len() == s.queue.len() + 1,
{
    lemma_find_blas(s.blas, id);
}

/// Some queue entry carries this handle.
pub open spec fn queue_has_id(q: Seq<CompactionQueueEntry>, id: u64) -> bool {
    exists|k: int| 0 <= k < q.len() && (#[trigger] q[k]).id == id
}

proof fn lemma_set_state_facts(s: Seq<BlasEntry>, id: u64, st: BlasState)
    ensures
        blas_set_state(s, id, st).len() == s.len(),
        forall|p: int|
            0 <= p < s.len() ==> (#[trigger] blas_set_state(s, id, st)[p]).id == s[p].id,
        forall|p: int|
            0 <= p < s.len() ==> (#[trigger] blas_set_state(s, id, st)[p]).vertex_count
                == s[p].vertex_count,
        forall|p: int|
            0 <= p < s.len() && s[p].id != id ==> #[trigger] blas_set_state(s, id, st)[p]
                == s[p],
        find_blas(s, id) >= 0 ==> blas_set_state(s, id, st)[find_blas(s, id)].state == st,
{
    lemma_find_blas(s, id);
}

proof fn lemma_converges_general(
    v: BlasView,
    ready: Seq<u64>,
    budget: u32,
    pops: nat,
    spent: int,
)
    requires
        pops >= v.queue.len(),
        0 <= spent,
        spent + queue_cost(v.queue) <= budget,
        forall|k: int|
            0 <= k < v.queue.len() ==> find_blas(v.blas, (#[trigger] v.queue[k]).id) >= 0,
        forall|k: int|
            0 <= k < v.queue.len() ==> ready.contains((#[trigger] v.queue[k]).id),
        forall|k: int| 0 <= k < v.queue.len() ==> (#[trigger] v.queue[k]).vertex_count >= 1,
    ensures
        v.tick_spec(ready, budget, pops, spent).queue.len() == 0,
        v.tick_spec(ready, budget, pops, spent).blas.len() == v.blas.len(),
        forall|p: int|
            0 <= p < v.blas.len() ==> (#[trigger] v.tick_spec(
                ready,
                budget,
                pops,
                spent,
            ).blas[p]).id == v.blas[p].id,
        forall|k: int|
            0 <= k < v.queue.len() ==> v.tick_spec(ready, budget, pops, spent).blas[find_blas(
                v.blas,
                (#[trigger] v.queue[k]).id,
            )].state == BlasState::Compacted,
        forall|p: int|
            0 <= p < v.blas.len() && !queue_has_id(v.queue, (#[trigger] v.blas[p]).id)
                ==> v.tick_spec(ready, budget, pops, spent).blas[p] == v.blas[p],
    decreases v.queue.len(),
{
    if v.queue.len() > 0 {
        let e = v.queue[0];
        lemma_queue_cost_nonneg(v.queue.drop_first());
        assert(queue_cost(v.queue) == e.vertex_count + queue_cost(v.queue.drop_first()));
        assert(spent < budget);
        let rest = BlasView { queue: v.queue.drop_first(), ..v };
        let queried = if e.in_flight {
            rest.blas
        } else {
            blas_set_state(rest.blas, e.id, BlasState::PendingCompaction)
        };
        lemma_set_state_facts(rest.blas, e.id, BlasState::PendingCompaction);
        let b2 = blas_set_state(queried, e.id, BlasState::Compacted);
        lemma_find_blas_same_ids(queried, v.blas, e.id);
        lemma_set_state_facts(queried, e.id, BlasState::Compacted);
        let next = BlasView { blas: b2, queue: v.queue.drop_first() };
        assert(v.tick_spec(ready, budget, pops, spent) == next.tick_spec(
            ready,
            budget,
            (pops - 1) as nat,
            spent + e.vertex_count,
        ));
        assert(forall|p: int|
            0 <= p < v.blas.len() ==> (#[trigger] b2[p]).id == v.blas[p].id);
        assert forall|k: int|
            0 <= k < next.queue.len() implies find_blas(
            next.blas,
            (#[trigger] next.queue[k]).id,
        ) >= 0 && ready.contains(next.queue[k].id) && next.queue[k].vertex_count >= 1 by {
            assert(next.queue[k] == v.queue[k + 1]);
            lemma_find_blas_same_ids(next.blas, v.blas, next.queue[k].id);
        }
        lemma_converges_general(next, ready, budget, (pops - 1) as nat, spent + e.vertex_count);
        let r = next.tick_spec(ready, budget, (pops - 1) as nat, spent + e.vertex_count);
        let i = find_blas(v.blas, e.id);
        lemma_find_blas(v.blas, e.id);
        assert(b2[i].state == BlasState::Compacted) by {
            lemma_find_blas_same_ids(queried, v.blas, e.id);
        }
        assert forall|k: int|
            0 <= k < v.queue.len() implies r.blas[find_blas(
            v.blas,
            (#[trigger] v.queue[k]).id,
        )].state == BlasState::Compacted by {
            if k == 0 {
                if queue_has_id(next.queue, e.id) {
                    let w = choose|w: int|
                        0 <= w < next.queue.len() && (#[trigger] next.queue[w]).id == e.id;
                    lemma_find_blas_same_ids(next.blas, v.blas, e.id);
                } else {
                    assert(b2[i].id == e.id);
                    assert(r.blas[i] == b2[i]);
                }
            } else {
                assert(v.queue[k] == next.queue[k - 1]);
                lemma_find_blas_same_ids(next.blas, v.blas, v.queue[k].id);
            }
        }
        assert forall|p: int|
            0 <= p < v.blas.len() && !queue_has_id(v.queue, (#[trigger] v.blas[p]).id) implies
            r.blas[p] == v.blas[p] by {
            assert(v.blas[p].id != e.id) by {
                if v.blas[p].id == e.id {
                    assert(v.queue[0].id == v.blas[p].id);
                }
            }
            assert(b2[p] == v.blas[p]);
            assert(!queue_has_id(next.queue, b2[p].id)) by {
                if queue_has_id(next.queue, b2[p].id) {
                    let w = choose|w: int|
                        0 <= w < next.queue.len() && (#[trigger] next.queue[w]).id == b2[p].id;
                    assert(v.queue[w + 1].id == v.blas[p].id);
                }
            }
        }
    }
}

/// Compaction converges: when the tick's budget covers the total vertex
/// cost of the queue, every queued entry has an acceleration structure,
/// every cost is at least one vertex, and the device reports every size
/// query ready, a single tick compacts every queued type and leaves the
/// queue empty — so after at most as many ticks as the queue is long,
/// nothing is left to compact. Entries whose types are not queued keep
/// their state untouched.
pub proof fn lemma_compaction_converges(v: BlasView, ready: Seq<u64>, budget: u32)
    requires
        queue_cost(v.queue) <= budget,
        forall|k: int|
            0 <= k < v.queue.len() ==> find_blas(v.blas, (#[trigger] v.queue[k]).id) >= 0,
        forall|k: int|
            0 <= k < v.queue.len() ==> ready.contains((#[trigger] v.queue[k]).id),
        forall|k: int| 0 <= k < v.queue.len() ==> (#[trigger] v.queue[k]).vertex_count >= 1,
    ensures
        v.tick_spec(ready, budget, v.queue.len(), 0).queue.len() == 0,
        forall|k: int|
            0 <= k < v.queue.len() ==> v.tick_spec(ready, budget, v.queue.len(), 0).blas[
                find_blas(v.blas, (#[trigger] v.queue[k]).id)
            ].state == BlasState::Compacted,
        forall|p: int|
            0 <= p < v.blas.len() && !queue_has_id(v.queue, (#[trigger] v.blas[p]).id)
                ==> v.tick_spec(ready, budget, v.queue.len(), 0).blas[p] == v.blas[p],
{
    lemma_queue_cost_nonneg(v.queue);
    lemma_converges_general(v, ready, budget, v.queue.len(), 0);
}

/// The once-per-frame compaction tick, with the frame's vertex budget.
pub fn compact_blas(blas_manager: &mut BlasManager, ready: &Vec<u64>)
    requires
        old(blas_manager)@.wf(),
    ensures
        final(blas_manager)@ == old(blas_manager)@.tick_spec(
            ready@,
            MAX_COMPACTION_VERTICES_PER_FRAME,
            old(blas_manager)@.queue.len(),
            0,
        ),
        final(blas_manager)@.wf(),
{
    blas_manager.tick_compaction(MAX_COMPACTION_VERTICES_PER_FRAME, ready);
}

} // verus!
