use vstd::prelude::*;

use crate::face::FaceDir;

verus! {

/// Identifier of a block type; `AIR` is reserved for air.
#[derive(Clone, Copy, Debug, PartialEq, Eq, Structural)]
pub struct BlockId(pub u16);

/// The raw identifier reserved for air, which has no geometry.
pub const AIR: u16 = 0;

/// Visual data of one face of a block type.
#[derive(Clone, Copy, Debug, PartialEq, Eq, Structural)]
pub struct BlockFace {
    pub texture_index: u32,
}

/// Returns whether two face descriptors may be merged into one quad: both
/// present and identical.
pub fn can_merge_faces(first: Option<BlockFace>, second: Option<BlockFace>) -> (r: bool)
    ensures
        r == (first is Some && first == second),
{
    match (first, second) {
        (Some(a), Some(b)) => a == b,
        _ => false,
    }
}

/// The visual model of a block type: one optional face per direction.
#[derive(Clone, Copy, Debug)]
pub struct BlockModel {
    pub pos_x: Option<BlockFace>,
    pub pos_y: Option<BlockFace>,
    pub pos_z: Option<BlockFace>,
    pub neg_x: Option<BlockFace>,
    pub neg_y: Option<BlockFace>,
    pub neg_z: Option<BlockFace>,
}

impl BlockModel {
    pub open spec fn spec_face(self, dir: FaceDir) -> Option<BlockFace> {
        match dir {
            FaceDir::PosX => self.pos_x,
            FaceDir::PosY => self.pos_y,
            FaceDir::PosZ => self.pos_z,
            FaceDir::NegX => self.neg_x,
            FaceDir::NegY => self.neg_y,
            FaceDir::NegZ => self.neg_z,
        }
    }

    /// The face of this model in direction `dir`, if it has one.
    pub fn face(&self, dir: FaceDir) -> (r: Option<BlockFace>)
        ensures
            r == self.spec_face(dir),
    {
        match dir {
            FaceDir::PosX => self.pos_x,
            FaceDir::PosY => self.pos_y,
            FaceDir::PosZ => self.pos_z,
            FaceDir::NegX => self.neg_x,
            FaceDir::NegY => self.neg_y,
            FaceDir::NegZ => self.neg_z,
        }
    }
}

/// Read-only table from block identifiers to block models. Entry `i` is the
/// model of `BlockId(i)`; air and identifiers past the end have no faces.
pub struct BlockRegistry {
    pub models: Vec<BlockModel>,
}

impl BlockRegistry {
    pub open spec fn spec_face_of(&self, id: BlockId, dir: FaceDir) -> Option<BlockFace> {
        if id.0 == AIR || id.0 >= self.models@.len() {
            None
        } else {
            self.models@[id.0 as int].spec_face(dir)
        }
    }

    /// Looks up the face of block type `id` in direction `dir`.
    pub fn face_of(&self, id: BlockId, dir: FaceDir) -> (r: Option<BlockFace>)
        ensures
            r == self.spec_face_of(id, dir),
    {
        if id.0 == AIR || id.0 as usize >= self.models.len() {
            None
        } else {
            self.models[id.0 as usize].face(dir)
        }
    }
}

} // verus!
