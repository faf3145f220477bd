use vstd::prelude::*;

verus! {

/// Number of cells along each axis of a chunk.
pub const CHUNK_SIZE: u32 = 32;

/// The six axis-aligned face directions.
#[derive(Clone, Copy, Debug, PartialEq, Eq, Structural)]
pub enum FaceDir {
    PosX,
    PosY,
    PosZ,
    NegX,
    NegY,
    NegZ,
}

impl FaceDir {
    pub open spec fn spec_opposite(self) -> FaceDir {
        match self {
            FaceDir::PosX => FaceDir::NegX,
            FaceDir::PosY => FaceDir::NegY,
            FaceDir::PosZ => FaceDir::NegZ,
            FaceDir::NegX => FaceDir::PosX,
            FaceDir::NegY => FaceDir::PosY,
            FaceDir::NegZ => FaceDir::PosZ,
        }
    }

    /// The direction pointing the other way along the same axis.
    pub fn opposite(self) -> (r: FaceDir)
        ensures
            r == self.spec_opposite(),
    {
        match self {
            FaceDir::PosX => FaceDir::NegX,
            FaceDir::PosY => FaceDir::NegY,
            FaceDir::PosZ => FaceDir::NegZ,
            FaceDir::NegX => FaceDir::PosX,
            FaceDir::NegY => FaceDir::PosY,
            FaceDir::NegZ => FaceDir::PosZ,
        }
    }

    pub open spec fn spec_negative(self) -> bool {
        match self {
            FaceDir::NegX | FaceDir::NegY | FaceDir::NegZ => true,
            _ => false,
        }
    }

    /// Whether this direction points towards decreasing coordinates.
    pub fn negative(self) -> (r: bool)
        ensures
            r == self.spec_negative(),
    {
        match self {
            FaceDir::NegX | FaceDir::NegY | FaceDir::NegZ => true,
            _ => false,
        }
    }

    /// The unit vector of this direction.
    pub open spec fn normal(self) -> (int, int, int) {
        match self {
            FaceDir::PosX => (1, 0, 0),
            FaceDir::PosY => (0, 1, 0),
            FaceDir::PosZ => (0, 0, 1),
            FaceDir::NegX => (-1, 0, 0),
            FaceDir::NegY => (0, -1, 0),
            FaceDir::NegZ => (0, 0, -1),
        }
    }

    /// Maps a (tangent U, tangent V, depth) triple to chunk (x, y, z) axes.
    pub open spec fn spec_rotate(self, u: int, v: int, d: int) -> (int, int, int) {
        match self {
            FaceDir::PosX | FaceDir::NegX => (d, v, u),
            FaceDir::PosY | FaceDir::NegY => (v, d, u),
            FaceDir::PosZ | FaceDir::NegZ => (u, v, d),
        }
    }

    /// Executable form of `spec_rotate`.
    pub fn rotate(self, u: u32, v: u32, d: u32) -> (r: (u32, u32, u32))
        ensures
            (r.0 as int, r.1 as int, r.2 as int) == self.spec_rotate(u as int, v as int, d as int),
    {
        match self {
            FaceDir::PosX | FaceDir::NegX => (d, v, u),
            FaceDir::PosY | FaceDir::NegY => (v, d, u),
            FaceDir::PosZ | FaceDir::NegZ => (u, v, d),
        }
    }

    /// Depth of the `k`-th layer of a sweep from the side this direction faces
    /// towards the opposite side.
    pub open spec fn spec_layer_depth(self, k: int) -> int {
        if self.spec_negative() {
            k
        } else {
            CHUNK_SIZE - 1 - k
        }
    }

    /// Executable form of `spec_layer_depth`.
    pub fn layer_depth(self, k: u32) -> (r: u32)
        requires
            k < CHUNK_SIZE,
        ensures
            r as int == self.spec_layer_depth(k as int),
    {
        if self.negative() {
            k
        } else {
            (CHUNK_SIZE - 1) - k
        }
    }

    /// Offset of corner `i` of a face of this direction spanning `w` cells
    /// along U and `h` cells along V, relative to its smallest covered cell.
    /// Looking at the face head on, corner 0 is bottom left and the others
    /// follow anticlockwise.
    pub open spec fn spec_corner(self, i: int, w: int, h: int) -> (int, int, int) {
        match self {
            FaceDir::PosX => if i == 0 {
                (1, 0, w)
            } else if i == 1 {
                (1, 0, 0)
            } else if i == 2 {
                (1, h, 0)
            } else {
                (1, h, w)
            },
            FaceDir::PosY => if i == 0 {
                (0, 1, 0)
            } else if i == 1 {
                (0, 1, w)
            } else if i == 2 {
                (h, 1, w)
            } else {
                (h, 1, 0)
            },
            FaceDir::PosZ => if i == 0 {
                (0, 0, 1)
            } else if i == 1 {
                (w, 0, 1)
            } else if i == 2 {
                (w, h, 1)
            } else {
                (0, h, 1)
            },
            FaceDir::NegX => if i == 0 {
                (0, 0, 0)
            } else if i == 1 {
                (0, 0, w)
            } else if i == 2 {
                (0, h, w)
            } else {
                (0, h, 0)
            },
            FaceDir::NegY => if i == 0 {
                (h, 0, 0)
            } else if i == 1 {
                (h, 0, w)
            } else if i == 2 {
                (0, 0, w)
            } else {
                (0, 0, 0)
            },
            FaceDir::NegZ => if i == 0 {
                (w, 0, 0)
            } else if i == 1 {
                (0, 0, 0)
            } else if i == 2 {
                (0, h, 0)
            } else {
                (w, h, 0)
            },
        }
    }

    /// Executable form of `spec_corner`.
    pub fn corner(self, i: usize, w: u32, h: u32) -> (r: (i64, i64, i64))
        requires
            i < 4,
            w <= CHUNK_SIZE,
            h <= CHUNK_SIZE,
        ensures
            (r.0 as int, r.1 as int, r.2 as int) == self.spec_corner(i as int, w as int, h as int),
            0 <= r.0 <= CHUNK_SIZE,
            0 <= r.1 <= CHUNK_SIZE,
            0 <= r.2 <= CHUNK_SIZE,
    {
        let w = w as i64;
        let h = h as i64;
        match self {
            FaceDir::PosX => if i == 0 {
                (1, 0, w)
            } else if i == 1 {
                (1, 0, 0)
            } else if i == 2 {
                (1, h, 0)
            } else {
                (1, h, w)
            },
            FaceDir::PosY => if i == 0 {
                (0, 1, 0)
            } else if i == 1 {
                (0, 1, w)
            } else if i == 2 {
                (h, 1, w)
            } else {
                (h, 1, 0)
            },
            FaceDir::PosZ => if i == 0 {
                (0, 0, 1)
            } else if i == 1 {
                (w, 0, 1)
            } else if i == 2 {
                (w, h, 1)
            } else {
                (0, h, 1)
            },
            FaceDir::NegX => if i == 0 {
                (0, 0, 0)
            } else if i == 1 {
                (0, 0, w)
            } else if i == 2 {
                (0, h, w)
            } else {
                (0, h, 0)
            },
            FaceDir::NegY => if i == 0 {
                (h, 0, 0)
            } else if i == 1 {
                (h, 0, w)
            } else if i == 2 {
                (0, 0, w)
            } else {
                (0, 0, 0)
            },
            FaceDir::NegZ => if i == 0 {
                (w, 0, 0)
            } else if i == 1 {
                (0, 0, 0)
            } else if i == 2 {
                (0, h, 0)
            } else {
                (w, h, 0)
            },
        }
    }
}

} // verus!
