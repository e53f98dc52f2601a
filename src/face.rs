use vstd::prelude::*;

verus! {

/// One of the six faces of an axis-aligned box. `Left`/`Right` face -x/+x,
/// `Front`/`Back` face -y/+y, `Bottom`/`Top` face -z/+z.
#[derive(Debug, Clone, Copy, PartialEq, Eq, Structural)]
pub enum Face {
    Top,
    Bottom,
    Left,
    Right,
    Front,
    Back,
}

/// The order in which the faces of a box are visited when meshing.
pub open spec fn face_order(i: int) -> Face {
    if i == 0 {
        Face::Top
    } else if i == 1 {
        Face::Bottom
    } else if i == 2 {
        Face::Left
    } else if i == 3 {
        Face::Right
    } else if i == 4 {
        Face::Front
    } else {
        Face::Back
    }
}

/// Outward normal of a face.
pub open spec fn face_normal(f: Face) -> (i32, i32, i32) {
    match f {
        Face::Top => (0, 0, 1),
        Face::Bottom => (0, 0, -1i32),
        Face::Left => (-1i32, 0, 0),
        Face::Right => (1, 0, 0),
        Face::Front => (0, -1i32, 0),
        Face::Back => (0, 1, 0),
    }
}

/// Corner `i` (0..4) of a face on the unit cube, counter-clockwise seen from outside.
pub open spec fn face_corner(f: Face, i: int) -> (u32, u32, u32) {
    match f {
        Face::Right => if i == 0 { (1, 0, 0) } else if i == 1 { (1, 1, 0) } else if i == 2 { (1, 1, 1) } else { (1, 0, 1) },
        Face::Left => if i == 0 { (0, 1, 0) } else if i == 1 { (0, 0, 0) } else if i == 2 { (0, 0, 1) } else { (0, 1, 1) },
        Face::Back => if i == 0 { (1, 1, 0) } else if i == 1 { (0, 1, 0) } else if i == 2 { (0, 1, 1) } else { (1, 1, 1) },
        Face::Front => if i == 0 { (0, 0, 0) } else if i == 1 { (1, 0, 0) } else if i == 2 { (1, 0, 1) } else { (0, 0, 1) },
        Face::Top => if i == 0 { (0, 0, 1) } else if i == 1 { (1, 0, 1) } else if i == 2 { (1, 1, 1) } else { (0, 1, 1) },
        Face::Bottom => if i == 0 { (0, 1, 0) } else if i == 1 { (0, 0, 0) } else if i == 2 { (1, 0, 0) } else { (1, 1, 0) },
    }
}

/// The two in-plane extents (along the face's u and v directions) of a face of a
/// box of size `(sx, sy, sz)`.
pub open spec fn face_extent(f: Face, sx: u32, sy: u32, sz: u32) -> (u32, u32) {
    match f {
        Face::Top => (sx, sy),
        Face::Bottom => (sy, sx),
        Face::Left | Face::Right => (sy, sz),
        Face::Front | Face::Back => (sx, sz),
    }
}

/// Texture coordinate of corner `i` of a face whose in-plane extents are `(u, v)`:
/// the texture repeats once per block along each direction.
pub open spec fn face_uv(u: u32, v: u32, i: int) -> (u32, u32) {
    if i == 0 {
        (0, v)
    } else if i == 1 {
        (u, v)
    } else if i == 2 {
        (u, 0)
    } else {
        (0, 0)
    }
}

impl Face {
    /// The face visited at position `i` (0..6) when meshing a box.
    pub fn from_index(i: usize) -> (r: Face)
        requires
            i < 6,
        ensures
            r == face_order(i as int),
    {
        if i == 0 {
            Face::Top
        } else if i == 1 {
            Face::Bottom
        } else if i == 2 {
            Face::Left
        } else if i == 3 {
            Face::Right
        } else if i == 4 {
            Face::Front
        } else {
            Face::Back
        }
    }

    pub fn normal(&self) -> (r: (i32, i32, i32))
        ensures
            r == face_normal(*self),
    {
        match self {
            Face::Top => (0, 0, 1),
            Face::Bottom => (0, 0, -1i32),
            Face::Left => (-1i32, 0, 0),
            Face::Right => (1, 0, 0),
            Face::Front => (0, -1i32, 0),
            Face::Back => (0, 1, 0),
        }
    }

    /// The four corners of this face on the unit cube.
    pub fn positions(&self) -> (r: [[u32; 3]; 4])
        ensures
            forall|i: int|
                0 <= i < 4 ==> (r[i][0], r[i][1], r[i][2]) == face_corner(*self, i),
    {
        match self {
            Face::Right => [[1, 0, 0], [1, 1, 0], [1, 1, 1], [1, 0, 1]],
            Face::Left => [[0, 1, 0], [0, 0, 0], [0, 0, 1], [0, 1, 1]],
            Face::Back => [[1, 1, 0], [0, 1, 0], [0, 1, 1], [1, 1, 1]],
            Face::Front => [[0, 0, 0], [1, 0, 0], [1, 0, 1], [0, 0, 1]],
            Face::Top => [[0, 0, 1], [1, 0, 1], [1, 1, 1], [0, 1, 1]],
            Face::Bottom => [[0, 1, 0], [0, 0, 0], [1, 0, 0], [1, 1, 0]],
        }
    }

    /// Texture coordinates of the four corners of this face on a box of the given
    /// size, stretched so that the texture repeats once per block.
    pub fn uvs(&self, size: (u32, u32, u32)) -> (r: [[u32; 2]; 4])
        ensures
            forall|i: int|
                0 <= i < 4 ==> (r[i][0], r[i][1]) == face_uv(
                    face_extent(*self, size.0, size.1, size.2).0,
                    face_extent(*self, size.0, size.1, size.2).1,
                    i,
                ),
    {
        let (sx, sy, sz) = size;
        let (u, v) = match self {
            Face::Top => (sx, sy),
            Face::Bottom => (sy, sx),
            Face::Left | Face::Right => (sy, sz),
            Face::Front | Face::Back => (sx, sz),
        };
        [[0, v], [u, v], [u, 0], [0, 0]]
    }
}

} // verus!
