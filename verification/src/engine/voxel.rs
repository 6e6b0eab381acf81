//! Voxel assets as the renderer sees them: a voxel type is a reusable
//! template of unit-cube sub-voxels, each with a material handle and a grid
//! offset inside the block; a live block instance references one type.
//!
//! Handles are the stable integer identifiers the host asset system assigns
//! to voxel-type and material assets.

use vstd::prelude::*;

verus! {

/// Shading model of a material. The renderer stores the model as a small
/// integer alongside the material's parameters.
pub enum VoxelMaterialModel {
    /// A pure color material; in raster terms, close to an albedo.
    Lambertian,
    /// A reflective material with a configurable fuzziness value.
    Metallic,
    /// A water/glass-like material that both reflects and refracts.
    Dielectric,
    /// Reserved for volumetric scattering.
    Isotropic,
    /// An emissive material for torches, lamps and similar light sources.
    DiffuseLight,
}

impl VoxelMaterialModel {
    /// The integer the shading code uses to select the model.
    pub open spec fn spec_index_u32(self) -> u32 {
        match self {
            VoxelMaterialModel::Lambertian => 0,
            VoxelMaterialModel::Metallic => 1,
            VoxelMaterialModel::Dielectric => 2,
            VoxelMaterialModel::Isotropic => 3,
            VoxelMaterialModel::DiffuseLight => 4,
        }
    }
}

impl From<VoxelMaterialModel> for u32 {
    fn from(value: VoxelMaterialModel) -> (r: u32)
        ensures
            r == value.spec_index_u32(),
    {
        match value {
            VoxelMaterialModel::Lambertian => 0,
            VoxelMaterialModel::Metallic => 1,
            VoxelMaterialModel::Dielectric => 2,
            VoxelMaterialModel::Isotropic => 3,
            VoxelMaterialModel::DiffuseLight => 4,
        }
    }
}

impl vstd::std_specs::convert::FromSpecImpl<VoxelMaterialModel> for u32 {
    open spec fn obeys_from_spec() -> bool {
        true
    }

    open spec fn from_spec(value: VoxelMaterialModel) -> u32 {
        value.spec_index_u32()
    }
}

/// One sub-voxel of a voxel type: a material handle and the voxel's offset
/// on the type's own grid (the world-space offset is this position divided
/// by the type's size).
#[derive(Clone, Copy, PartialEq, Eq, Debug)]
pub struct RelativeVoxel {
    pub material: u64,
    pub position: [i32; 3],
}

impl RelativeVoxel {
    pub fn new(material: u64, position: [i32; 3]) -> (r: Self)
        ensures
            r.material == material,
            r.position == position,
    {
        RelativeVoxel { material, position }
    }
}

/// A reusable template of sub-voxels. `size` is how many grid cells the
/// largest dimension of the block spans; each sub-voxel is scaled by
/// `1/size` when the block is instantiated at unit scale.
#[derive(Clone, Debug)]
pub struct VoxelType {
    size: i32,
    voxels: Vec<RelativeVoxel>,
}

impl VoxelType {
    pub fn new(size: u32, voxels: Vec<RelativeVoxel>) -> (r: Self)
        ensures
            r.spec_size() == size as i32,
            r.spec_voxels() == voxels@,
    {
        VoxelType { voxels, size: size as i32 }
    }

    pub closed spec fn spec_size(self) -> i32 {
        self.size
    }

    pub fn size(&self) -> (r: i32)
        ensures
            r == self.spec_size(),
    {
        self.size
    }

    /// The materials of this type's sub-voxels, in declaration order.
    pub open spec fn materials(self) -> Seq<u64> {
        self.spec_voxels().map_values(|v: RelativeVoxel| v.material)
    }

    pub closed spec fn spec_voxels(self) -> Seq<RelativeVoxel> {
        self.voxels@
    }

    pub fn voxels(&self) -> (r: &Vec<RelativeVoxel>)
        ensures
            r@ == self.spec_voxels(),
    {
        &self.voxels
    }
}

/// A live block in the render world: the handle of its voxel type together
/// with its visibility. The block's transform is carried alongside by the
/// driver and never inspected here.
#[derive(Clone, Copy, PartialEq, Eq, Structural, Debug)]
pub struct RenderVoxelBlock {
    pub voxel_type: u64,
    pub visible: bool,
}

} // verus!
