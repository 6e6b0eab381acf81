//! The geometry store: it accumulates triangulated cube geometry for every
//! voxel type into append-only shared buffers and hands out stable integer
//! handles for types and materials.
//!
//! Shape of the data, per sub-voxel of a type: 24 cube vertices (4 per face
//! of 6 faces), 12 triangles, and per triangle one entry in the per-triangle
//! material map. The shared vertex and normal buffers hold 4 floats per
//! vertex, so a voxel occupies 96 slots of each; the shared index buffer
//! holds one 4-slot quad per triangle (three vertex indices and a trailing
//! 0), so a voxel occupies 48 slots of it. Vertex and normal values are
//! floating-point data produced on upload; the store tracks those two
//! buffers by their length and the index and material-map buffers by their
//! exact contents.
//!
//! Ingestion is append-only: once a type's geometry is written its ranges
//! never move, and evicting a type removes only its lookup entry, never the
//! bytes.

use vstd::prelude::*;

verus! {

/// Index/material-slot record of one shader object: where in the shared
/// index buffer its geometry starts and where in the material map its
/// per-triangle material lookups start.
#[derive(Clone, Copy, PartialEq, Eq, Structural, Debug)]
pub struct RenderObject {
    pub index: u32,
    pub material_id: u32,
}

/// The triangle list of the canonical unit cube: entry `i` is the vertex
/// index (into the cube's 24 vertices) of corner `i % 3` of triangle
/// `i / 3`. Each face contributes 4 vertices and 2 triangles.
pub open spec fn cube_index(i: int) -> u32 {
    let face = i / 6;
    let k = i % 6;
    let off: int = if face < 3 {
        if k == 0 {
            2
        } else if k == 1 {
            0
        } else if k == 2 {
            1
        } else if k == 3 {
            2
        } else if k == 4 {
            1
        } else {
            3
        }
    } else {
        if k == 0 {
            1
        } else if k == 1 {
            0
        } else if k == 2 {
            2
        } else if k == 3 {
            3
        } else if k == 4 {
            1
        } else {
            2
        }
    };
    (4 * face + off) as u32
}

/// The canonical cube triangle list, as executable code.
pub fn cube_index_at(i: usize) -> (r: u32)
    requires
        i < 36,
    ensures
        r == cube_index(i as int),
{
    let face = i / 6;
    let k = i % 6;
    let off: usize = if face < 3 {
        if k == 0 {
            2
        } else if k == 1 {
            0
        } else if k == 2 {
            1
        } else if k == 3 {
            2
        } else if k == 4 {
            1
        } else {
            3
        }
    } else {
        if k == 0 {
            1
        } else if k == 1 {
            0
        } else if k == 2 {
            2
        } else if k == 3 {
            3
        } else if k == 4 {
            1
        } else {
            2
        }
    };
    (4 * face + off) as u32
}

/// Per-type compact geometry, the input of a bottom-level acceleration
/// structure build: how many vertices and indices the type's own compact
/// vertex/index buffer pair holds.
#[derive(Clone, Copy, PartialEq, Eq, Structural, Debug)]
pub struct CompactGeometry {
    pub id: u64,
    pub vertex_count: u32,
    pub index_count: u32,
}

/// Everything the store records for one voxel type: its object handle, the
/// start of its range in the shared index buffer (in quads) and in the
/// material map, and the size of its compact buffer pair.
#[derive(Clone, Copy, PartialEq, Eq, Structural, Debug)]
pub struct GeometryRecord {
    pub object_id: u32,
    pub index_offset: u32,
    pub material_offset: u32,
    pub vertex_count: u32,
    pub index_count: u32,
}

/// The store's mathematical state.
#[verifier::ext_equal]
pub ghost struct StoreView {
    /// Handles of ingested types, in ingestion order; a type's position
    /// here is its object handle.
    pub added_types: Seq<u64>,
    /// Handles of ingested materials, in ingestion order; a material's
    /// position here is the value written into the material map.
    pub added_materials: Seq<u64>,
    /// Per-type compact geometry entries; eviction removes from here only.
    pub geometries: Seq<CompactGeometry>,
    /// Occupied slots of the shared vertex buffer (4 floats per vertex).
    pub vertices_len: nat,
    /// The shared index buffer.
    pub indices: Seq<u32>,
    /// Occupied slots of the shared normal buffer.
    pub normals_len: nat,
    /// The per-triangle material map.
    pub material_map: Seq<u32>,
    /// Per object handle, the quad offset of its range in the shared index
    /// buffer.
    pub index_map: Seq<u32>,
    /// Per object handle, the offset of its range in the material map.
    pub material_index_map: Seq<u32>,
}

/// First position of `id` in `s`, or -1 if absent.
pub open spec fn find_id(s: Seq<u64>, id: u64) -> int
    decreases s.len(),
{
    if s.len() == 0 {
        -1
    } else if s[0] == id {
        0
    } else {
        let r = find_id(s.drop_first(), id);
        if r < 0 {
            -1
        } else {
            r + 1
        }
    }
}

pub proof fn lemma_find_id(s: Seq<u64>, id: u64)
    ensures
        find_id(s, id) == -1 <==> !s.contains(id),
        find_id(s, id) != -1 ==> 0 <= find_id(s, id) < s.len() && s[find_id(s, id)] == id,
        find_id(s, id) != -1 ==> forall|j: int| 0 <= j < find_id(s, id) ==> s[j] != id,
    decreases s.len(),
{
    if s.len() > 0 && s[0] != id {
        lemma_find_id(s.drop_first(), id);
        assert(forall|j: int|
            0 <= j < s.drop_first().len() ==> #[trigger] s.drop_first()[j] == s[j + 1]);
        assert(forall|j: int| 1 <= j < s.len() ==> #[trigger] s[j] == s.drop_first()[j - 1]);
        if s.contains(id) {
            let w = choose|w: int| 0 <= w < s.len() && s[w] == id;
            assert(s.drop_first()[w - 1] == id);
        }
    }
}

pub proof fn lemma_find_id_is(s: Seq<u64>, id: u64, i: int)
    requires
        0 <= i < s.len(),
        s[i] == id,
        forall|j: int| 0 <= j < i ==> s[j] != id,
    ensures
        find_id(s, id) == i,
    decreases s.len(),
{
    if i > 0 {
        lemma_find_id_is(s.drop_first(), id, i - 1);
    }
}

/// First position of the entry with handle `id` in `g`, or -1 if absent.
pub open spec fn find_geom(g: Seq<CompactGeometry>, id: u64) -> int
    decreases g.len(),
{
    if g.len() == 0 {
        -1
    } else if g[0].id == id {
        0
    } else {
        let r = find_geom(g.drop_first(), id);
        if r < 0 {
            -1
        } else {
            r + 1
        }
    }
}

pub proof fn lemma_find_geom(g: Seq<CompactGeometry>, id: u64)
    ensures
        find_geom(g, id) == -1 <==> forall|j: int| 0 <= j < g.len() ==> g[j].id != id,
        find_geom(g, id) != -1 ==> 0 <= find_geom(g, id) < g.len() && g[find_geom(g, id)].id
            == id,
        find_geom(g, id) != -1 ==> forall|j: int| 0 <= j < find_geom(g, id) ==> g[j].id != id,
    decreases g.len(),
{
    if g.len() > 0 && g[0].id != id {
        lemma_find_geom(g.drop_first(), id);
        assert(forall|j: int|
            0 <= j < g.drop_first().len() ==> #[trigger] g.drop_first()[j] == g[j + 1]);
        assert(forall|j: int| 1 <= j < g.len() ==> #[trigger] g[j] == g.drop_first()[j - 1]);
    }
}

pub proof fn lemma_find_geom_is(g: Seq<CompactGeometry>, id: u64, i: int)
    requires
        0 <= i < g.len(),
        g[i].id == id,
        forall|j: int| 0 <= j < i ==> g[j].id != id,
    ensures
        find_geom(g, id) == i,
    decreases g.len(),
{
    if i > 0 {
        lemma_find_geom_is(g.drop_first(), id, i - 1);
    }
}

/// Insert-or-replace of a per-type compact geometry entry.
pub open spec fn geom_insert(g: Seq<CompactGeometry>, c: CompactGeometry) -> Seq<
    CompactGeometry,
> {
    let i = find_geom(g, c.id);
    if i >= 0 {
        g.update(i, c)
    } else {
        g.push(c)
    }
}

/// Removal of a per-type compact geometry entry, if present.
pub open spec fn geom_remove(g: Seq<CompactGeometry>, id: u64) -> Seq<CompactGeometry> {
    let i = find_geom(g, id);
    if i >= 0 {
        g.remove(i)
    } else {
        g
    }
}

/// The quads appended to the shared index buffer for one type of `n`
/// voxels whose range starts at quad offset `goff`: slot `k` belongs to
/// voxel `k / 48`, triangle `(k % 48) / 4` of that voxel, and holds either
/// one of the triangle's three vertex indices, rebased past the 24 vertices
/// of every earlier voxel and the `goff` quads of every earlier type, or
/// the quad's trailing 0.
pub open spec fn type_index_block(n: nat, goff: u32) -> Seq<u32> {
    Seq::new(48 * n, |k: int| index_block_entry(k, goff))
}

pub open spec fn index_block_entry(k: int, goff: u32) -> u32 {
    let v = k / 48;
    let r = k % 48;
    let t = r / 4;
    let j = r % 4;
    if j == 3 {
        0u32
    } else {
        (cube_index(3 * t + j) + 24 * v + goff) as u32
    }
}

/// The entries appended to the material map for one type: each of a
/// voxel's 12 triangles records the position of the voxel's material among
/// the ingested materials.
pub open spec fn type_material_block(ty: crate::engine::voxel::VoxelType, mats: Seq<u64>) -> Seq<
    u32,
> {
    Seq::new(
        12 * ty.spec_voxels().len(),
        |k: int| find_id(mats, ty.spec_voxels()[k / 12].material) as u32,
    )
}

impl StoreView {
    /// The store as it starts: nothing ingested.
    pub open spec fn empty() -> StoreView {
        StoreView {
            added_types: Seq::empty(),
            added_materials: Seq::empty(),
            geometries: Seq::empty(),
            vertices_len: 0,
            indices: Seq::empty(),
            normals_len: 0,
            material_map: Seq::empty(),
            index_map: Seq::empty(),
            material_index_map: Seq::empty(),
        }
    }

    /// Well-formedness: handles are unique, the per-object maps are as
    /// long as the handle list, the shared buffers keep their fixed size
    /// ratios (one material-map entry and two vertex-buffer slots per two
    /// index slots), every recorded range lies inside its buffer, ranges
    /// appear in ingestion order, and everything stays addressable with
    /// 32-bit offsets.
    pub open spec fn wf(self) -> bool {
        &&& self.index_map.len() == self.added_types.len()
        &&& self.material_index_map.len() == self.added_types.len()
        &&& self.added_types.no_duplicates()
        &&& self.added_materials.no_duplicates()
        &&& 4 * self.material_map.len() == self.indices.len()
        &&& self.vertices_len == 2 * self.indices.len()
        &&& self.normals_len == self.vertices_len
        &&& self.added_types.len() <= u32::MAX
        &&& self.added_materials.len() <= u32::MAX
        &&& self.indices.len() <= u32::MAX
        &&& forall|i: int|
            0 <= i < self.index_map.len() ==> 4 * (#[trigger] self.index_map[i] as int)
                <= self.indices.len()
        &&& forall|i: int, j: int|
            0 <= i <= j < self.index_map.len() ==> #[trigger] self.index_map[i]
                <= #[trigger] self.index_map[j]
        &&& forall|i: int|
            0 <= i < self.material_index_map.len() ==> #[trigger] self.material_index_map[i] as int
                <= self.material_map.len()
        &&& forall|i: int, j: int|
            0 <= i <= j < self.material_index_map.len() ==> #[trigger] self.material_index_map[i]
                <= #[trigger] self.material_index_map[j]
        &&& forall|i: int, j: int|
            0 <= i < j < self.geometries.len() ==> (#[trigger] self.geometries[i]).id
                != (#[trigger] self.geometries[j]).id
        &&& forall|i: int|
            0 <= i < self.geometries.len() ==> self.added_types.contains(
                (#[trigger] self.geometries[i]).id,
            )
    }

    /// One type's ingestion step. A type seen before only refreshes its
    /// compact geometry entry; an unseen type is appended to every shared
    /// buffer and given the next object handle.
    pub open spec fn ingest_type(self, id: u64, ty: crate::engine::voxel::VoxelType) -> StoreView {
        let n = ty.spec_voxels().len();
        let compact = CompactGeometry {
            id,
            vertex_count: (24 * n) as u32,
            index_count: (36 * n) as u32,
        };
        let s1 = if self.added_types.contains(id) {
            self
        } else {
            let goff = (self.indices.len() / 4) as u32;
            StoreView {
                added_types: self.added_types.push(id),
                index_map: self.index_map.push(goff),
                material_index_map: self.material_index_map.push(
                    self.material_map.len() as u32,
                ),
                vertices_len: self.vertices_len + 96 * n,
                normals_len: self.normals_len + 96 * n,
                indices: self.indices + type_index_block(n, goff),
                material_map: self.material_map + type_material_block(ty, self.added_materials),
                ..self
            }
        };
        StoreView { geometries: geom_insert(s1.geometries, compact), ..s1 }
    }

    /// A whole ingestion batch, first entry first.
    pub open spec fn ingest_seq(
        self,
        batch: Seq<(u64, crate::engine::voxel::VoxelType)>,
    ) -> StoreView
        decreases batch.len(),
    {
        if batch.len() == 0 {
            self
        } else {
            self.ingest_type(batch[0].0, batch[0].1).ingest_seq(batch.drop_first())
        }
    }

    /// Eviction of one type's compact geometry lookup entry. The shared
    /// buffers and the object handle maps keep the type's data.
    pub open spec fn evict_one(self, id: u64) -> StoreView {
        StoreView { geometries: geom_remove(self.geometries, id), ..self }
    }

    pub open spec fn evict_seq(self, removed: Seq<u64>) -> StoreView
        decreases removed.len(),
    {
        if removed.len() == 0 {
            self
        } else {
            self.evict_one(removed[0]).evict_seq(removed.drop_first())
        }
    }

    /// Material ingestion: unseen handles are appended in order.
    pub open spec fn add_materials_seq(self, batch: Seq<u64>) -> StoreView
        decreases batch.len(),
    {
        if batch.len() == 0 {
            self
        } else {
            let s1 = if self.added_materials.contains(batch[0]) {
                self
            } else {
                StoreView { added_materials: self.added_materials.push(batch[0]), ..self }
            };
            s1.add_materials_seq(batch.drop_first())
        }
    }

    /// Every material a batch will need is already ingested: a type that
    /// is unseen when its turn comes must only name ingested materials.
    pub open spec fn batch_materials_ok(
        self,
        batch: Seq<(u64, crate::engine::voxel::VoxelType)>,
    ) -> bool
        decreases batch.len(),
    {
        if batch.len() == 0 {
            true
        } else {
            let head_ok = self.added_types.contains(batch[0].0) || forall|v: int|
                0 <= v < batch[0].1.spec_voxels().len() ==> self.added_materials.contains(
                    batch[0].1.spec_voxels()[v].material,
                );
            head_ok && self.ingest_type(batch[0].0, batch[0].1).batch_materials_ok(
                batch.drop_first(),
            )
        }
    }

    /// The batch fits the machine limits: all offsets stay 32-bit and the
    /// vertex/normal buffer lengths stay within the address space.
    pub open spec fn batch_fits(
        self,
        batch: Seq<(u64, crate::engine::voxel::VoxelType)>,
    ) -> bool {
        &&& self.indices.len() + 48 * total_voxels(batch) <= u32::MAX
        &&& self.added_types.len() + batch.len() <= u32::MAX
        &&& self.vertices_len + 96 * total_voxels(batch) <= usize::MAX
    }

    /// The append-only relation: `other` extends `self` without touching
    /// anything already written.
    pub open spec fn extended_by(self, other: StoreView) -> bool {
        &&& self.added_types.is_prefix_of(other.added_types)
        &&& self.added_materials.is_prefix_of(other.added_materials)
        &&& self.indices.is_prefix_of(other.indices)
        &&& self.material_map.is_prefix_of(other.material_map)
        &&& self.index_map.is_prefix_of(other.index_map)
        &&& self.material_index_map.is_prefix_of(other.material_index_map)
        &&& self.vertices_len <= other.vertices_len
        &&& self.normals_len <= other.normals_len
    }
}

/// Sum of the voxel counts of a batch's types.
pub open spec fn total_voxels(batch: Seq<(u64, crate::engine::voxel::VoxelType)>) -> int
    decreases batch.len(),
{
    if batch.len() == 0 {
        0
    } else {
        batch[0].1.spec_voxels().len() + total_voxels(batch.drop_first())
    }
}

pub proof fn lemma_total_voxels_nonneg(batch: Seq<(u64, crate::engine::voxel::VoxelType)>)
    ensures
        total_voxels(batch) >= 0,
    decreases batch.len(),
{
    if batch.len() > 0 {
        lemma_total_voxels_nonneg(batch.drop_first());
    }
}

/// Manages the shared geometry buffers for all voxels in the scene.
pub struct GeometryManager {
    added_types: Vec<u64>,
    added_materials: Vec<u64>,
    geometries: Vec<CompactGeometry>,
    vertices_len: usize,
    indices: Vec<u32>,
    normals_len: usize,
    material_map: Vec<u32>,
    index_map: Vec<u32>,
    material_index_map: Vec<u32>,
}

impl View for GeometryManager {
    type V = StoreView;

    closed spec fn view(&self) -> StoreView {
        StoreView {
            added_types: self.added_types@,
            added_materials: self.added_materials@,
            geometries: self.geometries@,
            vertices_len: self.vertices_len as nat,
            indices: self.indices@,
            normals_len: self.normals_len as nat,
            material_map: self.material_map@,
            index_map: self.index_map@,
            material_index_map: self.material_index_map@,
        }
    }
}

impl Default for GeometryManager {
    /// A new store holds nothing.
    fn default() -> (r: Self)
        ensures
            r@ == StoreView::empty(),
            r@.wf(),
    {
        let r = GeometryManager {
            added_types: Vec::new(),
            added_materials: Vec::new(),
            geometries: Vec::new(),
            vertices_len: 0,
            indices: Vec::new(),
            normals_len: 0,
            material_map: Vec::new(),
            index_map: Vec::new(),
            material_index_map: Vec::new(),
        };
        proof {
            assert(r@ =~= StoreView::empty());
        }
        r
    }
}

impl GeometryManager {
    /// The object handle of an ingested type: its position in ingestion
    /// order. Eviction does not revoke it.
    pub fn get_object_id(&self, id: u64) -> (r: Option<u32>)
        requires
            self@.added_types.len() <= u32::MAX,
        ensures
            match r {
                Some(i) => i as int == find_id(self@.added_types, id),
                None => !self@.added_types.contains(id),
            },
    {
        let mut i: usize = 0;
        while i < self.added_types.len()
            invariant
                self@.added_types.len() <= u32::MAX,
                i <= self@.added_types.len(),
                forall|j: int| 0 <= j < i ==> self@.added_types[j] != id,
            decreases self@.added_types.len() - i,
        {
            if self.added_types[i] == id {
                proof {
                    lemma_find_id_is(self@.added_types, id, i as int);
                }
                return Some(i as u32);
            }
            i += 1;
        }
        None
    }

    /// The position of an ingested material, the value the material map
    /// stores for triangles of that material.
    pub fn index_of_material(&self, id: u64) -> (r: Option<u32>)
        requires
            self@.added_materials.len() <= u32::MAX,
        ensures
            match r {
                Some(i) => i as int == find_id(self@.added_materials, id),
                None => !self@.added_materials.contains(id),
            },
    {
        let mut i: usize = 0;
        while i < self.added_materials.len()
            invariant
                self@.added_materials.len() <= u32::MAX,
                i <= self@.added_materials.len(),
                forall|j: int| 0 <= j < i ==> self@.added_materials[j] != id,
            decreases self@.added_materials.len() - i,
        {
            if self.added_materials[i] == id {
                proof {
                    lemma_find_id_is(self@.added_materials, id, i as int);
                }
                return Some(i as u32);
            }
            i += 1;
        }
        None
    }

    /// The quad offset of an object's range in the shared index buffer.
    pub fn get_index(&self, object_id: u32) -> (r: Option<u32>)
        ensures
            match r {
                Some(off) => object_id < self@.index_map.len() && off == self@.index_map[
                    object_id as int
                ],
                None => object_id >= self@.index_map.len(),
            },
    {
        if (object_id as usize) < self.index_map.len() {
            Some(self.index_map[object_id as usize])
        } else {
            None
        }
    }

    /// The offset of an object's range in the material map.
    pub fn get_index_material(&self, object_id: u32) -> (r: Option<u32>)
        ensures
            match r {
                Some(off) => object_id < self@.material_index_map.len() && off
                    == self@.material_index_map[object_id as int],
                None => object_id >= self@.material_index_map.len(),
            },
    {
        if (object_id as usize) < self.material_index_map.len() {
            Some(self.material_index_map[object_id as usize])
        } else {
            None
        }
    }

    fn find_geometry(&self, id: u64) -> (r: Option<usize>)
        ensures
            match r {
                Some(i) => i < self@.geometries.len() && i as int == find_geom(
                    self@.geometries,
                    id,
                ) && self@.geometries[i as int].id == id,
                None => find_geom(self@.geometries, id) == -1,
            },
    {
        let mut i: usize = 0;
        while i < self.geometries.len()
            invariant
                i <= self@.geometries.len(),
                forall|j: int| 0 <= j < i ==> self@.geometries[j].id != id,
            decreases self@.geometries.len() - i,
        {
            if self.geometries[i].id == id {
                proof {
                    lemma_find_geom_is(self@.geometries, id, i as int);
                }
                return Some(i);
            }
            i += 1;
        }
        proof {
            lemma_find_geom(self@.geometries, id);
        }
        None
    }

    /// Vertex count of a type's compact vertex buffer, if the type has not
    /// been evicted.
    pub fn get_geometry_vertices(&self, id: u64) -> (r: Option<u32>)
        ensures
            match r {
                Some(c) => find_geom(self@.geometries, id) >= 0 && c == self@.geometries[find_geom(
                    self@.geometries,
                    id,
                )].vertex_count,
                None => find_geom(self@.geometries, id) == -1,
            },
    {
        match self.find_geometry(id) {
            Some(i) => Some(self.geometries[i].vertex_count),
            None => None,
        }
    }

    /// Index count of a type's compact index buffer, if the type has not
    /// been evicted.
    pub fn get_geometry_indices(&self, id: u64) -> (r: Option<u32>)
        ensures
            match r {
                Some(c) => find_geom(self@.geometries, id) >= 0 && c == self@.geometries[find_geom(
                    self@.geometries,
                    id,
                )].index_count,
                None => find_geom(self@.geometries, id) == -1,
            },
    {
        match self.find_geometry(id) {
            Some(i) => Some(self.geometries[i].index_count),
            None => None,
        }
    }

    /// Occupied slots of the shared vertex buffer.
    pub fn vertices(&self) -> (r: usize)
        ensures
            r == self@.vertices_len,
    {
        self.vertices_len
    }

    /// The shared index buffer.
    pub fn indices(&self) -> (r: &Vec<u32>)
        ensures
            r@ == self@.indices,
    {
        &self.indices
    }

    /// Occupied slots of the shared normal buffer.
    pub fn normals(&self) -> (r: usize)
        ensures
            r == self@.normals_len,
    {
        self.normals_len
    }

    /// Number of ingested materials, the length of the material buffer.
    pub fn materials(&self) -> (r: usize)
        ensures
            r == self@.added_materials.len(),
    {
        self.added_materials.len()
    }

    /// The per-triangle material map.
    pub fn material_map(&self) -> (r: &Vec<u32>)
        ensures
            r@ == self@.material_map,
    {
        &self.material_map
    }

    /// Drop a type's compact geometry lookup entry. Its bytes in the
    /// shared buffers and its object handle stay untouched.
    pub fn evict(&mut self, id: u64)
        ensures
            final(self)@ == old(self)@.evict_one(id),
    {
        match self.find_geometry(id) {
            Some(i) => {
                self.geometries.remove(i);
                proof {
                    assert(self@ =~= old(self)@.evict_one(id));
                }
            },
            None => {
                proof {
                    assert(self@ =~= old(self)@.evict_one(id));
                }
            },
        }
    }

    /// Append the triangulated geometry of one type, unless it was seen
    /// before; refresh its compact geometry entry either way.
    #[verifier::rlimit(80)]
    fn ingest_one(&mut self, id: u64, ty: &crate::engine::voxel::VoxelType)
        requires
            old(self)@.wf(),
            old(self)@.added_types.contains(id) || forall|v: int|
                0 <= v < ty.spec_voxels().len() ==> old(self)@.added_materials.contains(
                    ty.spec_voxels()[v].material,
                ),
            old(self)@.indices.len() + 48 * ty.spec_voxels().len() <= u32::MAX,
            old(self)@.added_types.len() + 1 <= u32::MAX,
            old(self)@.vertices_len + 96 * ty.spec_voxels().len() <= usize::MAX,
        ensures
            final(self)@ == old(self)@.ingest_type(id, *ty),
            final(self)@.wf(),
    {
        let ghost ov = self@;
        let n = ty.voxels().len();
        let vertex_count: u32 = (24 * n) as u32;
        let index_count: u32 = (36 * n) as u32;
        let added = match self.get_object_id(id) {
            Some(_) => true,
            None => false,
        };
        proof {
            lemma_find_id(ov.added_types, id);
        }
        if !added {
            let goff: u32 = (self.indices.len() / 4) as u32;
            let material_offset: u32 = self.material_map.len() as u32;
            self.added_types.push(id);
            self.index_map.push(goff);
            self.material_index_map.push(material_offset);
            self.vertices_len = self.vertices_len + 96 * n;
            self.normals_len = self.normals_len + 96 * n;

            let mut v: usize = 0;
            while v < n
                invariant
                    v <= n,
                    n == ty.spec_voxels().len(),
                    ov.wf(),
                    ov.indices.len() + 48 * n <= u32::MAX,
                    forall|w: int|
                        0 <= w < n ==> ov.added_materials.contains(
                            ty.spec_voxels()[w].material,
                        ),
                    goff == ov.indices.len() / 4,
                    self@.added_materials == ov.added_materials,
                    self@.added_types == ov.added_types.push(id),
                    self@.index_map == ov.index_map.push(goff),
                    self@.material_index_map == ov.material_index_map.push(
                        ov.material_map.len() as u32,
                    ),
                    self@.vertices_len == ov.vertices_len + 96 * n,
                    self@.normals_len == ov.normals_len + 96 * n,
                    self@.indices == ov.indices + type_index_block(n as nat, goff).take(
                        48 * v as int,
                    ),
                    self@.material_map == ov.material_map + type_material_block(
                        *ty,
                        ov.added_materials,
                    ).take(12 * v as int),
                    self@.geometries == ov.geometries,
                decreases n - v,
            {
                let m: u32 = match self.index_of_material(ty.voxels()[v].material) {
                    Some(m) => m,
                    None => {
                        proof {
                            lemma_find_id(ov.added_materials, ty.spec_voxels()[v as int].material);
                        }
                        0
                    },
                };
                proof {
                    lemma_find_id(ov.added_materials, ty.spec_voxels()[v as int].material);
                }
                let mut t: usize = 0;
                while t < 12
                    invariant
                        t <= 12,
                        v < n,
                        n == ty.spec_voxels().len(),
                        ov.wf(),
                        ov.indices.len() + 48 * n <= u32::MAX,
                        goff == ov.indices.len() / 4,
                        m as int == find_id(
                            ov.added_materials,
                            ty.spec_voxels()[v as int].material,
                        ),
                        self@.added_materials == ov.added_materials,
                        self@.added_types == ov.added_types.push(id),
                        self@.index_map == ov.index_map.push(goff),
                        self@.material_index_map == ov.material_index_map.push(
                            ov.material_map.len() as u32,
                        ),
                        self@.vertices_len == ov.vertices_len + 96 * n,
                        self@.normals_len == ov.normals_len + 96 * n,
                        self@.indices == ov.indices + type_index_block(n as nat, goff).take(
                            48 * v as int + 4 * t as int,
                        ),
                        self@.material_map == ov.material_map + type_material_block(
                            *ty,
                            ov.added_materials,
                        ).take(12 * v as int + t as int),
                        self@.geometries == ov.geometries,
                    decreases 12 - t,
                {
                    let ghost k0 = 48 * v as int + 4 * t as int;
                    proof {
                        lemma_block_entries(n as nat, goff, v as int, t as int);
                        lemma_material_entry(*ty, ov.added_materials, v as int, t as int);
                    }
                    let base: u32 = (24 * v) as u32 + goff;
                    let i0 = cube_index_at(3 * t);
                    let i1 = cube_index_at(3 * t + 1);
                    let i2 = cube_index_at(3 * t + 2);
                    self.indices.push(i0 + base);
                    self.indices.push(i1 + base);
                    self.indices.push(i2 + base);
                    self.indices.push(0);
                    self.material_map.push(m);
                    proof {
                        let block = type_index_block(n as nat, goff);
                        assert(self@.indices =~= ov.indices + block.take(k0 + 4));
                        let mblock = type_material_block(*ty, ov.added_materials);
                        assert(self@.material_map =~= ov.material_map + mblock.take(
                            12 * v as int + t as int + 1,
                        ));
                    }
                    t += 1;
                }
                v += 1;
            }
            proof {
                assert(self@.indices =~= ov.indices + type_index_block(n as nat, goff));
                assert(self@.material_map =~= ov.material_map + type_material_block(
                    *ty,
                    ov.added_materials,
                ));
            }
        }
        let compact = CompactGeometry { id, vertex_count, index_count };
        let ghost mid = self@;
        match self.find_geometry(id) {
            Some(i) => {
                self.geometries[i] = compact;
            },
            None => {
                self.geometries.push(compact);
            },
        }
        proof {
            assert(self@.geometries =~= geom_insert(mid.geometries, compact));
            assert(self@ =~= ov.ingest_type(id, *ty));
            lemma_ingest_type_wf(ov, id, *ty);
        }
    }

    /// Everything the store records for a type, if its compact geometry
    /// has not been evicted.
    pub fn lookup(&self, id: u64) -> (r: Option<GeometryRecord>)
        requires
            self@.wf(),
        ensures
            match r {
                Some(rec) => {
                    &&& find_geom(self@.geometries, id) >= 0
                    &&& rec.object_id as int == find_id(self@.added_types, id)
                    &&& rec.object_id < self@.index_map.len()
                    &&& rec.index_offset == self@.index_map[rec.object_id as int]
                    &&& rec.material_offset == self@.material_index_map[rec.object_id as int]
                    &&& rec.vertex_count == self@.geometries[find_geom(
                        self@.geometries,
                        id,
                    )].vertex_count
                    &&& rec.index_count == self@.geometries[find_geom(
                        self@.geometries,
                        id,
                    )].index_count
                },
                None => find_geom(self@.geometries, id) == -1,
            },
    {
        match self.find_geometry(id) {
            Some(i) => {
                let entry = self.geometries[i];
                proof {
                    assert(self@.added_types.contains(self@.geometries[i as int].id));
                    lemma_find_id(self@.added_types, id);
                }
                let oid = match self.get_object_id(id) {
                    Some(o) => o,
                    None => {
                        proof {
                            assert(false);
                        }
                        0
                    },
                };
                Some(
                    GeometryRecord {
                        object_id: oid,
                        index_offset: self.index_map[oid as usize],
                        material_offset: self.material_index_map[oid as usize],
                        vertex_count: entry.vertex_count,
                        index_count: entry.index_count,
                    },
                )
            },
            None => None,
        }
    }

    /// Append the geometry of every type in the batch that was not seen
    /// before; types seen before are left untouched (repeating a batch
    /// changes nothing). All the materials an unseen type names must have
    /// been ingested first, as material ingestion runs before geometry
    /// ingestion.
    pub fn ingest(&mut self, new_types: &Vec<(u64, crate::engine::voxel::VoxelType)>)
        requires
            old(self)@.wf(),
            old(self)@.batch_materials_ok(new_types@),
            old(self)@.batch_fits(new_types@),
        ensures
            final(self)@ == old(self)@.ingest_seq(new_types@),
            final(self)@.wf(),
    {
        let ghost ov = self@;
        let ghost b = new_types@;
        proof {
            assert(b.skip(0) =~= b);
        }
        let mut t: usize = 0;
        while t < new_types.len()
            invariant
                t <= b.len(),
                new_types@ == b,
                self@.wf(),
                self@.batch_materials_ok(b.skip(t as int)),
                self@.batch_fits(b.skip(t as int)),
                ov.ingest_seq(b) == self@.ingest_seq(b.skip(t as int)),
            decreases b.len() - t,
        {
            let ghost s = self@;
            let ghost rest = b.skip(t as int);
            let pair = &new_types[t];
            proof {
                assert(rest[0] == b[t as int]);
                assert(rest.drop_first() =~= b.skip(t as int + 1));
                lemma_total_voxels_nonneg(rest.drop_first());
                assert(total_voxels(rest) == pair.1.spec_voxels().len() + total_voxels(
                    rest.drop_first(),
                ));
            }
            self.ingest_one(pair.0, &pair.1);
            t += 1;
            proof {
                assert(self@ == s.ingest_type(b[t - 1].0, b[t - 1].1));
                assert(self@.batch_materials_ok(b.skip(t as int)));
                assert(self@.indices.len() <= s.indices.len() + 48 * pair.1.spec_voxels().len());
                assert(self@.batch_fits(b.skip(t as int)));
            }
        }
        proof {
            assert(b.skip(b.len() as int) =~= Seq::<
                (u64, crate::engine::voxel::VoxelType),
            >::empty());
        }
    }
}

/// Append every material of the batch that was not seen before; repeated
/// handles are left untouched.
pub fn prepare_materials(manager: &mut GeometryManager, extracted: &Vec<u64>)
    requires
        old(manager)@.wf(),
        old(manager)@.added_materials.len() + extracted@.len() <= u32::MAX,
    ensures
        final(manager)@ == old(manager)@.add_materials_seq(extracted@),
        final(manager)@.wf(),
{
    let ghost ov = manager@;
    let ghost b = extracted@;
    proof {
        assert(b.skip(0) =~= b);
    }
    let mut t: usize = 0;
    while t < extracted.len()
        invariant
            t <= b.len(),
            extracted@ == b,
            manager@.wf(),
            manager@.added_materials.len() + (b.len() - t) <= u32::MAX,
            ov.add_materials_seq(b) == manager@.add_materials_seq(b.skip(t as int)),
            manager@ == (StoreView { added_materials: manager@.added_materials, ..ov }),
        decreases b.len() - t,
    {
        let ghost s = manager@;
        let id = extracted[t];
        proof {
            assert(b.skip(t as int)[0] == id);
            assert(b.skip(t as int).drop_first() =~= b.skip(t as int + 1));
        }
        match manager.index_of_material(id) {
            Some(_) => {
                proof {
                    lemma_find_id(s.added_materials, id);
                }
            },
            None => {
                manager.added_materials.push(id);
                proof {
                    assert(forall|j: int|
                        0 <= j < s.added_materials.len()
                            ==> #[trigger] manager@.added_materials[j] == s.added_materials[j]);
                    assert(manager@ =~= StoreView {
                        added_materials: s.added_materials.push(id),
                        ..s
                    });
                }
            },
        }
        t += 1;
    }
    proof {
        assert(b.skip(b.len() as int) =~= Seq::<u64>::empty());
    }
}

/// Drop the compact geometry entries of the removed types, then ingest the
/// extracted batch.
pub fn prepare_geometry(
    manager: &mut GeometryManager,
    removed: &Vec<u64>,
    extracted: &Vec<(u64, crate::engine::voxel::VoxelType)>,
)
    requires
        old(manager)@.wf(),
        old(manager)@.batch_materials_ok(extracted@),
        old(manager)@.batch_fits(extracted@),
    ensures
        final(manager)@ == old(manager)@.evict_seq(removed@).ingest_seq(extracted@),
        final(manager)@.wf(),
{
    let ghost ov = manager@;
    let ghost r = removed@;
    let mut i: usize = 0;
    while i < removed.len()
        invariant
            i <= r.len(),
            removed@ == r,
            manager@.wf(),
            manager@ == ov.evict_seq(r.take(i as int)),
            manager@ == (StoreView { geometries: manager@.geometries, ..ov }),
        decreases r.len() - i,
    {
        let ghost s = manager@;
        manager.evict(removed[i]);
        i += 1;
        proof {
            assert(r.take(i as int) =~= r.take(i as int - 1).push(r[i as int - 1]));
            lemma_evict_seq_snoc(ov, r.take(i as int - 1), r[i as int - 1]);
            lemma_evict_one_wf(s, r[i as int - 1]);
        }
    }
    proof {
        assert(r.take(r.len() as int) =~= r);
        lemma_batch_pred_ignores_geometries(ov, manager@, extracted@);
    }
    manager.ingest(extracted);
}

/// Folding one more eviction at the end.
proof fn lemma_evict_seq_snoc(s: StoreView, r: Seq<u64>, id: u64)
    ensures
        s.evict_seq(r.push(id)) == s.evict_seq(r).evict_one(id),
    decreases r.len(),
{
    if r.len() == 0 {
        assert(r.push(id).drop_first() =~= Seq::<u64>::empty());
        assert(r.push(id)[0] == id);
        assert(s.evict_one(id).evict_seq(Seq::<u64>::empty()) == s.evict_one(id));
    } else {
        assert(r.push(id).drop_first() =~= r.drop_first().push(id));
        assert(r.push(id)[0] == r[0]);
        lemma_evict_seq_snoc(s.evict_one(r[0]), r.drop_first(), id);
    }
}

/// Eviction keeps the store well-formed.
pub proof fn lemma_evict_one_wf(s: StoreView, id: u64)
    requires
        s.wf(),
    ensures
        s.evict_one(id).wf(),
{
    lemma_find_geom(s.geometries, id);
    let i = find_geom(s.geometries, id);
    if i >= 0 {
        let g2 = s.geometries.remove(i);
        assert(forall|p: int|
            0 <= p < i ==> #[trigger] g2[p] == s.geometries[p]);
        assert(forall|p: int|
            i <= p < g2.len() ==> #[trigger] g2[p] == s.geometries[p + 1]);
        assert(s.evict_one(id).wf());
    }
}

/// The material and size conditions of a batch read nothing of the
/// compact geometry entries, so eviction does not change them.
proof fn lemma_batch_pred_ignores_geometries(
    s1: StoreView,
    s2: StoreView,
    batch: Seq<(u64, crate::engine::voxel::VoxelType)>,
)
    requires
        s2 == (StoreView { geometries: s2.geometries, ..s1 }),
    ensures
        s1.batch_materials_ok(batch) == s2.batch_materials_ok(batch),
        s1.batch_fits(batch) == s2.batch_fits(batch),
    decreases batch.len(),
{
    if batch.len() > 0 {
        let t1 = s1.ingest_type(batch[0].0, batch[0].1);
        let t2 = s2.ingest_type(batch[0].0, batch[0].1);
        assert(t2 == StoreView { geometries: t2.geometries, ..t1 });
        lemma_batch_pred_ignores_geometries(t1, t2, batch.drop_first());
    }
}

/// Slot `48 v + 4 t + j` of a type's index block belongs to triangle `t`
/// of voxel `v` and holds the rebased vertex index of corner `j`, or 0 in
/// the quad's last slot.
proof fn lemma_block_entries(n: nat, goff: u32, v: int, t: int)
    requires
        0 <= v < n,
        0 <= t < 12,
    ensures
        index_block_entry(48 * v + 4 * t, goff) == (cube_index(3 * t) + 24 * v + goff) as u32,
        index_block_entry(48 * v + 4 * t + 1, goff) == (cube_index(3 * t + 1) + 24 * v
            + goff) as u32,
        index_block_entry(48 * v + 4 * t + 2, goff) == (cube_index(3 * t + 2) + 24 * v
            + goff) as u32,
        index_block_entry(48 * v + 4 * t + 3, goff) == 0u32,
{
    lemma_block_slot(goff, v, t, 0);
    lemma_block_slot(goff, v, t, 1);
    lemma_block_slot(goff, v, t, 2);
    lemma_block_slot(goff, v, t, 3);
}

proof fn lemma_block_slot(goff: u32, v: int, t: int, j: int)
    requires
        0 <= v,
        0 <= t < 12,
        0 <= j < 4,
    ensures
        index_block_entry(48 * v + 4 * t + j, goff) == if j == 3 {
            0u32
        } else {
            (cube_index(3 * t + j) + 24 * v + goff) as u32
        },
{
    vstd::arithmetic::div_mod::lemma_fundamental_div_mod_converse(
        48 * v + 4 * t + j,
        48,
        v,
        4 * t + j,
    );
    vstd::arithmetic::div_mod::lemma_fundamental_div_mod_converse(4 * t + j, 4, t, j);
}

/// Slot `12 v + t` of a type's material block holds the material index of
/// voxel `v`.
proof fn lemma_material_entry(
    ty: crate::engine::voxel::VoxelType,
    mats: Seq<u64>,
    v: int,
    t: int,
)
    requires
        0 <= v < ty.spec_voxels().len(),
        0 <= t < 12,
    ensures
        type_material_block(ty, mats)[12 * v + t] == find_id(
            mats,
            ty.spec_voxels()[v].material,
        ) as u32,
{
    vstd::arithmetic::div_mod::lemma_fundamental_div_mod_converse(12 * v + t, 12, v, t);
}

/// One ingestion step keeps the store well-formed.
pub proof fn lemma_ingest_type_wf(s: StoreView, id: u64, ty: crate::engine::voxel::VoxelType)
    requires
        s.wf(),
        s.indices.len() + 48 * ty.spec_voxels().len() <= u32::MAX,
        s.added_types.len() + 1 <= u32::MAX,
        s.vertices_len + 96 * ty.spec_voxels().len() <= usize::MAX,
    ensures
        s.ingest_type(id, ty).wf(),
{
    let post = s.ingest_type(id, ty);
    let n = ty.spec_voxels().len();
    lemma_find_geom(s.geometries, id);
    if s.added_types.contains(id) {
        let i = find_geom(s.geometries, id);
        assert(forall|p: int|
            0 <= p < post.geometries.len() ==> s.added_types.contains(
                (#[trigger] post.geometries[p]).id,
            ));
        assert(post.wf());
    } else {
        vstd::arithmetic::div_mod::lemma_fundamental_div_mod(s.indices.len() as int, 4);
        let goff = (s.indices.len() / 4) as u32;
        assert(4 * (goff as int) <= s.indices.len());
        assert forall|i: int| 0 <= i < s.index_map.len() implies #[trigger] s.index_map[i]
            <= goff by {
            assert(4 * (s.index_map[i] as int) <= s.indices.len());
        }
        assert forall|p: int| 0 <= p < s.geometries.len() implies post.added_types.contains(
            (#[trigger] s.geometries[p]).id,
        ) by {
            let y = s.geometries[p].id;
            assert(s.added_types.contains(y));
            let w = choose|w: int| 0 <= w < s.added_types.len() && s.added_types[w] == y;
            assert(post.added_types[w] == y);
        }
        assert(post.added_types[s.added_types.len() as int] == id);
        assert(post.added_types.contains(id));
        assert(forall|p: int|
            0 <= p < s.geometries.len() ==> (#[trigger] s.geometries[p]).id != id);
        assert(post.wf());
    }
}

/// The compact geometry entry one ingestion writes for a type.
pub open spec fn type_compact(id: u64, ty: crate::engine::voxel::VoxelType) -> CompactGeometry {
    CompactGeometry {
        id,
        vertex_count: (24 * ty.spec_voxels().len()) as u32,
        index_count: (36 * ty.spec_voxels().len()) as u32,
    }
}

/// The compact geometry entries after upserting one entry per batch item,
/// first item first.
pub open spec fn geom_fold(
    g: Seq<CompactGeometry>,
    batch: Seq<(u64, crate::engine::voxel::VoxelType)>,
) -> Seq<CompactGeometry>
    decreases batch.len(),
{
    if batch.len() == 0 {
        g
    } else {
        geom_fold(geom_insert(g, type_compact(batch[0].0, batch[0].1)), batch.drop_first())
    }
}

/// Some batch item carries this handle.
pub open spec fn batch_has_id(
    batch: Seq<(u64, crate::engine::voxel::VoxelType)>,
    id: u64,
) -> bool {
    exists|k: int| 0 <= k < batch.len() && (#[trigger] batch[k]).0 == id
}

/// Ids at equal positions decide the entry lookup.
proof fn lemma_find_geom_same_ids(h1: Seq<CompactGeometry>, h2: Seq<CompactGeometry>, id: u64)
    requires
        h1.len() == h2.len(),
        forall|p: int| 0 <= p < h1.len() ==> (#[trigger] h1[p]).id == h2[p].id,
    ensures
        find_geom(h1, id) == find_geom(h2, id),
    decreases h1.len(),
{
    if h1.len() > 0 && h1[0].id != id {
        assert(forall|j: int|
            0 <= j < h1.drop_first().len() ==> #[trigger] h1.drop_first()[j] == h1[j + 1]);
        assert(forall|j: int|
            0 <= j < h2.drop_first().len() ==> #[trigger] h2.drop_first()[j] == h2[j + 1]);
        lemma_find_geom_same_ids(h1.drop_first(), h2.drop_first(), id);
    }
}

/// A geometry sequence whose entries carry pairwise distinct handles.
pub open spec fn unique_geom_ids(g: Seq<CompactGeometry>) -> bool {
    forall|i: int, j: int|
        0 <= i < j < g.len() ==> (#[trigger] g[i]).id != (#[trigger] g[j]).id
}

/// What one upsert does to positions, ids, uniqueness and presence.
proof fn lemma_geom_insert_facts(g: Seq<CompactGeometry>, c: CompactGeometry)
    ensures
        geom_insert(g, c).len() >= g.len(),
        forall|p: int|
            0 <= p < g.len() ==> (#[trigger] geom_insert(g, c)[p]).id == g[p].id,
        find_geom(geom_insert(g, c), c.id) >= 0,
        unique_geom_ids(g) ==> unique_geom_ids(geom_insert(g, c)),
        forall|p: int|
            0 <= p < g.len() && g[p].id != c.id ==> #[trigger] geom_insert(g, c)[p] == g[p],
{
    lemma_find_geom(g, c.id);
    let i = find_geom(g, c.id);
    if i >= 0 {
        lemma_find_geom_same_ids(geom_insert(g, c), g, c.id);
    } else {
        lemma_find_geom_is(g.push(c), c.id, g.len() as int);
    }
}

/// What folding a batch does to positions, ids, uniqueness and entries of
/// handles the batch does not carry.
proof fn lemma_geom_fold_facts(
    g: Seq<CompactGeometry>,
    batch: Seq<(u64, crate::engine::voxel::VoxelType)>,
)
    ensures
        geom_fold(g, batch).len() >= g.len(),
        forall|p: int|
            0 <= p < g.len() ==> (#[trigger] geom_fold(g, batch)[p]).id == g[p].id,
        unique_geom_ids(g) ==> unique_geom_ids(geom_fold(g, batch)),
        forall|p: int|
            0 <= p < g.len() && !batch_has_id(batch, g[p].id) ==> #[trigger] geom_fold(
                g,
                batch,
            )[p] == g[p],
    decreases batch.len(),
{
    if batch.len() > 0 {
        let c = type_compact(batch[0].0, batch[0].1);
        lemma_geom_insert_facts(g, c);
        lemma_geom_fold_facts(geom_insert(g, c), batch.drop_first());
        assert forall|p: int|
            0 <= p < g.len() && !batch_has_id(batch, g[p].id) implies #[trigger] geom_fold(
            g,
            batch,
        )[p] == g[p] by {
            assert(batch[0].0 != g[p].id);
            assert(geom_insert(g, c)[p] == g[p]);
            assert(!batch_has_id(batch.drop_first(), g[p].id)) by {
                if batch_has_id(batch.drop_first(), g[p].id) {
                    let k = choose|k: int|
                        0 <= k < batch.drop_first().len() && (#[trigger] batch.drop_first()[k]).0
                            == g[p].id;
                    assert(batch[k + 1].0 == g[p].id);
                }
            }
        }
    }
}

/// Folding a batch over two sequences with the same handles in the same
/// positions gives the same result, provided every position where they
/// disagree carries a handle the batch writes again.
proof fn lemma_geom_fold_agree(
    h1: Seq<CompactGeometry>,
    h2: Seq<CompactGeometry>,
    batch: Seq<(u64, crate::engine::voxel::VoxelType)>,
)
    requires
        h1.len() == h2.len(),
        unique_geom_ids(h1),
        forall|p: int| 0 <= p < h1.len() ==> (#[trigger] h1[p]).id == h2[p].id,
        forall|p: int|
            0 <= p < h1.len() && #[trigger] h1[p] != #[trigger] h2[p] ==> batch_has_id(
                batch,
                h1[p].id,
            ),
    ensures
        geom_fold(h1, batch) == geom_fold(h2, batch),
    decreases batch.len(),
{
    if batch.len() == 0 {
        assert forall|p: int| 0 <= p < h1.len() implies h1[p] == h2[p] by {
            if h1[p] != h2[p] {
                assert(batch_has_id(batch, h1[p].id));
            }
        }
        assert(h1 =~= h2);
    } else {
        let c = type_compact(batch[0].0, batch[0].1);
        let g1 = geom_insert(h1, c);
        let g2 = geom_insert(h2, c);
        lemma_find_geom_same_ids(h1, h2, c.id);
        lemma_find_geom(h1, c.id);
        lemma_find_geom(h2, c.id);
        lemma_geom_insert_facts(h1, c);
        lemma_geom_insert_facts(h2, c);
        let i = find_geom(h1, c.id);
        assert(g1.len() == g2.len());
        assert(forall|p: int| 0 <= p < g1.len() ==> (#[trigger] g1[p]).id == g2[p].id);
        assert forall|p: int|
            0 <= p < g1.len() && #[trigger] g1[p] != #[trigger] g2[p] implies batch_has_id(
            batch.drop_first(),
            g1[p].id,
        ) by {
            if i >= 0 && p == i {
                assert(g1[p] == c && g2[p] == c);
            } else if i < 0 && p >= h1.len() {
                assert(g1[p] == c && g2[p] == c);
            } else {
                assert(g1[p] == h1[p] || g1[p].id == c.id);
                if g1[p].id == c.id && p != i {
                    if i >= 0 {
                        assert(h1[p].id == c.id && h1[i].id == c.id);
                        assert(false);
                    } else {
                        lemma_find_geom(h1, c.id);
                        assert(h1[p].id != c.id);
                        assert(false);
                    }
                }
                assert(g1[p] == h1[p] && g2[p] == h2[p]);
                assert(batch_has_id(batch, h1[p].id));
                let k = choose|k: int|
                    0 <= k < batch.len() && (#[trigger] batch[k]).0 == h1[p].id;
                assert(k != 0);
                assert(batch.drop_first()[k - 1].0 == h1[p].id);
            }
        }
        lemma_geom_fold_agree(g1, g2, batch.drop_first());
    }
}

/// Upserting the same entries a second time changes nothing.
proof fn lemma_geom_fold_idem(
    g: Seq<CompactGeometry>,
    batch: Seq<(u64, crate::engine::voxel::VoxelType)>,
)
    requires
        unique_geom_ids(g),
    ensures
        geom_fold(geom_fold(g, batch), batch) == geom_fold(g, batch),
    decreases batch.len(),
{
    if batch.len() > 0 {
        let x = batch[0];
        let c = type_compact(x.0, x.1);
        let r = batch.drop_first();
        let h0 = geom_insert(g, c);
        let h = geom_fold(h0, r);
        lemma_geom_insert_facts(g, c);
        lemma_geom_fold_facts(h0, r);
        lemma_find_geom(g, c.id);
        let ig = find_geom(g, c.id);
        if ig >= 0 {
            lemma_find_geom_is(h0, c.id, ig);
        } else {
            lemma_find_geom_is(h0, c.id, g.len() as int);
        }
        let i0 = find_geom(h0, c.id);
        assert(h0[i0] == c);
        lemma_find_geom(h0, c.id);
        lemma_find_geom_is(h, c.id, i0);
        // second pass: the head upsert rewrites position i0 of h
        let g1 = geom_insert(h, c);
        assert(find_geom(h, c.id) == i0);
        assert(g1 == h.update(i0, c));
        lemma_geom_fold_idem(h0, r);
        if batch_has_id(r, c.id) {
            lemma_geom_insert_facts(h, c);
            assert forall|p: int|
                0 <= p < g1.len() && #[trigger] g1[p] != #[trigger] h[p] implies batch_has_id(
                r,
                g1[p].id,
            ) by {
                assert(p == i0);
            }
            lemma_geom_fold_agree(g1, h, r);
        } else {
            assert(h[i0] == h0[i0]);
            assert(g1 =~= h);
        }
    }
}

/// Whether a handle is among the ingested types is kept by every
/// ingestion step, and the step's own handle is among them afterwards.
proof fn lemma_ingest_type_contains(
    s: StoreView,
    id: u64,
    ty: crate::engine::voxel::VoxelType,
    x: u64,
)
    ensures
        s.added_types.contains(x) ==> s.ingest_type(id, ty).added_types.contains(x),
        s.ingest_type(id, ty).added_types.contains(id),
{
    let post = s.ingest_type(id, ty);
    if s.added_types.contains(id) {
    } else {
        assert(post.added_types[s.added_types.len() as int] == id);
        if s.added_types.contains(x) {
            let w = choose|w: int| 0 <= w < s.added_types.len() && s.added_types[w] == x;
            assert(post.added_types[w] == x);
        }
    }
}

proof fn lemma_ingest_seq_contains(
    s: StoreView,
    batch: Seq<(u64, crate::engine::voxel::VoxelType)>,
    x: u64,
)
    requires
        s.added_types.contains(x),
    ensures
        s.ingest_seq(batch).added_types.contains(x),
    decreases batch.len(),
{
    if batch.len() > 0 {
        lemma_ingest_type_contains(s, batch[0].0, batch[0].1, x);
        lemma_ingest_seq_contains(s.ingest_type(batch[0].0, batch[0].1), batch.drop_first(), x);
    }
}

/// After a batch is ingested, every handle of the batch is among the
/// ingested types.
pub proof fn lemma_ingest_ids_added(
    s: StoreView,
    batch: Seq<(u64, crate::engine::voxel::VoxelType)>,
)
    ensures
        forall|k: int|
            0 <= k < batch.len() ==> s.ingest_seq(batch).added_types.contains(
                (#[trigger] batch[k]).0,
            ),
    decreases batch.len(),
{
    if batch.len() > 0 {
        let step = s.ingest_type(batch[0].0, batch[0].1);
        lemma_ingest_type_contains(s, batch[0].0, batch[0].1, batch[0].0);
        lemma_ingest_seq_contains(step, batch.drop_first(), batch[0].0);
        lemma_ingest_ids_added(step, batch.drop_first());
        assert forall|k: int|
            0 <= k < batch.len() implies s.ingest_seq(batch).added_types.contains(
            (#[trigger] batch[k]).0,
        ) by {
            if k > 0 {
                assert(batch.drop_first()[k - 1] == batch[k]);
            }
        }
    }
}

/// Ingestion only ever touches the compact geometry entries of a batch
/// whose handles are all already ingested.
proof fn lemma_ingest_seq_noop_fields(
    s: StoreView,
    batch: Seq<(u64, crate::engine::voxel::VoxelType)>,
)
    requires
        forall|k: int|
            0 <= k < batch.len() ==> s.added_types.contains((#[trigger] batch[k]).0),
    ensures
        s.ingest_seq(batch) == (StoreView {
            geometries: s.ingest_seq(batch).geometries,
            ..s
        }),
    decreases batch.len(),
{
    if batch.len() > 0 {
        assert(batch[0].0 == batch[0].0 && s.added_types.contains(batch[0].0));
        let step = s.ingest_type(batch[0].0, batch[0].1);
        assert(step == (StoreView { geometries: step.geometries, ..s }));
        assert(forall|k: int|
            0 <= k < batch.drop_first().len() ==> step.added_types.contains(
                (#[trigger] batch.drop_first()[k]).0,
            ));
        lemma_ingest_seq_noop_fields(step, batch.drop_first());
    }
}

/// The compact geometry entries after a batch are the fold of its
/// upserts, whatever else the batch changed.
proof fn lemma_ingest_seq_geometries(
    s: StoreView,
    batch: Seq<(u64, crate::engine::voxel::VoxelType)>,
)
    ensures
        s.ingest_seq(batch).geometries == geom_fold(s.geometries, batch),
    decreases batch.len(),
{
    if batch.len() > 0 {
        lemma_ingest_seq_geometries(s.ingest_type(batch[0].0, batch[0].1), batch.drop_first());
    }
}

/// Ingestion is idempotent: ingesting a batch a second time leaves the
/// store exactly as the first ingestion left it — no range moves and no
/// byte is appended twice.
pub proof fn lemma_ingest_idempotent(
    s: StoreView,
    batch: Seq<(u64, crate::engine::voxel::VoxelType)>,
)
    requires
        s.wf(),
    ensures
        s.ingest_seq(batch).ingest_seq(batch) == s.ingest_seq(batch),
{
    let s1 = s.ingest_seq(batch);
    lemma_ingest_ids_added(s, batch);
    lemma_ingest_seq_noop_fields(s1, batch);
    lemma_ingest_seq_geometries(s, batch);
    lemma_ingest_seq_geometries(s1, batch);
    assert(unique_geom_ids(s.geometries));
    lemma_geom_fold_idem(s.geometries, batch);
    assert(s1.ingest_seq(batch) =~= s1);
}

/// In a well-formed store, the ranges of a type ingested earlier lie at
/// or before the ranges of a type ingested later, in the shared index
/// buffer and in the material map alike.
pub proof fn lemma_ranges_ordered(s: StoreView, a: int, b: int)
    requires
        s.wf(),
        0 <= a <= b < s.added_types.len(),
    ensures
        s.index_map[a] <= s.index_map[b],
        s.material_index_map[a] <= s.material_index_map[b],
{
}

/// One ingestion step only appends.
proof fn lemma_ingest_type_extends(s: StoreView, id: u64, ty: crate::engine::voxel::VoxelType)
    ensures
        s.extended_by(s.ingest_type(id, ty)),
{
    let post = s.ingest_type(id, ty);
    assert(s.added_types =~= post.added_types.subrange(0, s.added_types.len() as int));
    assert(s.added_materials =~= post.added_materials.subrange(
        0,
        s.added_materials.len() as int,
    ));
    assert(s.indices =~= post.indices.subrange(0, s.indices.len() as int));
    assert(s.material_map =~= post.material_map.subrange(0, s.material_map.len() as int));
    assert(s.index_map =~= post.index_map.subrange(0, s.index_map.len() as int));
    assert(s.material_index_map =~= post.material_index_map.subrange(
        0,
        s.material_index_map.len() as int,
    ));
}

proof fn lemma_extended_by_trans(a: StoreView, b: StoreView, c: StoreView)
    requires
        a.extended_by(b),
        b.extended_by(c),
    ensures
        a.extended_by(c),
{
    assert(a.added_types =~= c.added_types.subrange(0, a.added_types.len() as int));
    assert(a.added_materials =~= c.added_materials.subrange(0, a.added_materials.len() as int));
    assert(a.indices =~= c.indices.subrange(0, a.indices.len() as int));
    assert(a.material_map =~= c.material_map.subrange(0, a.material_map.len() as int));
    assert(a.index_map =~= c.index_map.subrange(0, a.index_map.len() as int));
    assert(a.material_index_map =~= c.material_index_map.subrange(
        0,
        a.material_index_map.len() as int,
    ));
}

/// Ingestion is append-only: whatever a batch does, every buffer the
/// store held before is an untouched prefix of the buffer afterwards, and
/// every recorded range and handle keeps its place. Together with
/// well-formedness, whose order clauses the operations preserve, the range
/// of a type ingested earlier lies before the range of one ingested later
/// in every buffer.
pub proof fn lemma_ingest_append_only(
    s: StoreView,
    batch: Seq<(u64, crate::engine::voxel::VoxelType)>,
)
    ensures
        s.extended_by(s.ingest_seq(batch)),
    decreases batch.len(),
{
    if batch.len() == 0 {
        assert(s.added_types =~= s.added_types.subrange(0, s.added_types.len() as int));
        assert(s.added_materials =~= s.added_materials.subrange(
            0,
            s.added_materials.len() as int,
        ));
        assert(s.indices =~= s.indices.subrange(0, s.indices.len() as int));
        assert(s.material_map =~= s.material_map.subrange(0, s.material_map.len() as int));
        assert(s.index_map =~= s.index_map.subrange(0, s.index_map.len() as int));
        assert(s.material_index_map =~= s.material_index_map.subrange(
            0,
            s.material_index_map.len() as int,
        ));
    } else {
        let step = s.ingest_type(batch[0].0, batch[0].1);
        lemma_ingest_type_extends(s, batch[0].0, batch[0].1);
        lemma_ingest_append_only(step, batch.drop_first());
        lemma_extended_by_trans(s, step, step.ingest_seq(batch.drop_first()));
    }
}

} // verus!
