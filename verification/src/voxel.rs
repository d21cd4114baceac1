//! Voxels: one material id per cell, with id 0 standing for air.

use building_blocks::mesh::{IsOpaque, MergeVoxel};
use building_blocks::storage::IsEmpty;
use vstd::prelude::*;

verus! {

/// Material id of an empty cell.
pub const AIR: u8 = 0;

/// Material id of dirt.
pub const DIRT: u8 = 1;

/// Material id of stone.
pub const STONE: u8 = 2;

/// Material id of water.
pub const WATER: u8 = 4;

/// One voxel: a single material id byte.
#[derive(Clone, Copy, Debug, PartialEq, Eq, Structural)]
pub struct Voxel(pub u8);

impl Voxel {
    /// A voxel of the given material.
    pub fn new(id: u8) -> (v: Voxel)
        ensures
            v.0 == id,
    {
        Voxel(id)
    }

    /// The material id.
    pub fn id(&self) -> (id: u8)
        ensures
            id == self.0,
    {
        self.0
    }

    /// Whether this voxel is air.
    pub open spec fn empty(self) -> bool {
        self.0 == 0
    }

    /// True exactly for material id 0.
    pub fn is_empty(&self) -> (r: bool)
        ensures
            r == self.empty(),
    {
        self.0 == 0
    }

    /// Every material blocks light.
    pub fn is_opaque(&self) -> (r: bool)
        ensures
            r,
    {
        true
    }

    /// Two voxels may share a quad exactly when their raw ids are equal, so the
    /// merge value is the id itself.
    pub fn voxel_merge_value(&self) -> (r: u8)
        ensures
            r == self.0,
    {
        self.0
    }
}

impl Default for Voxel {
    fn default() -> (v: Voxel)
        ensures
            v.0 == 0,
    {
        Voxel(0)
    }
}

impl IsEmpty for Voxel {
    /// What the mesher asks to tell air from matter: true exactly for material
    /// id 0.
    fn is_empty(&self) -> (r: bool)
        ensures
            r == self.empty(),
    {
        Voxel::is_empty(self)
    }
}

impl IsOpaque for Voxel {
    /// What the mesher asks to tell whether a voxel hides the face behind it:
    /// every voxel does, whatever its material.
    fn is_opaque(&self) -> (r: bool)
        ensures
            r,
    {
        Voxel::is_opaque(self)
    }
}

impl MergeVoxel for Voxel {
    type VoxelValue = u8;

    /// What the mesher compares to tell whether two faces may share a quad:
    /// the material id itself.
    fn voxel_merge_value(&self) -> (r: u8)
        ensures
            r == self.0,
    {
        Voxel::voxel_merge_value(self)
    }
}

} // verus!
