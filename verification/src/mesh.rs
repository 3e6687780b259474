//! The mesh capability: any source of the four parallel attribute arrays can
//! be bound for drawing. Two sources exist: a fixed procedural cube and a
//! parsed document mesh.
use crate::ply::PlyMesh;
use vstd::prelude::*;

verus! {

/// Single-precision bit pattern of one.
pub const F_ONE: u32 = 0x3F800000;

/// Single-precision bit pattern of minus one.
pub const F_NEG_ONE: u32 = 0xBF800000;

/// Single-precision bit pattern of zero.
pub const F_ZERO: u32 = 0x00000000;

/// Single-precision bit pattern of eight tenths, a cube palette channel.
pub const C_EIGHT_TENTHS: u32 = 0x3F4CCCCD;

/// Single-precision bit pattern of one half, a cube palette channel.
pub const C_HALF: u32 = 0x3F000000;

/// Single-precision bit pattern of one fifth, a cube palette channel.
pub const C_FIFTH: u32 = 0x3E4CCCCD;

/// A provider of the four parallel attribute arrays: positions, normals and
/// colors flattened by component as single-precision bit patterns, and the
/// triangle index list. The renderer depends only on these accessors, never
/// on a concrete variant.
pub trait Mesh {
    spec fn spec_vertices(&self) -> Seq<u32>;

    spec fn spec_normals(&self) -> Seq<u32>;

    spec fn spec_colors(&self) -> Seq<u32>;

    spec fn spec_indices(&self) -> Seq<u16>;

    fn vertices(&self) -> (r: &Vec<u32>)
        ensures
            r@ == self.spec_vertices(),
    ;

    fn normals(&self) -> (r: &Vec<u32>)
        ensures
            r@ == self.spec_normals(),
    ;

    fn colors(&self) -> (r: &Vec<u32>)
        ensures
            r@ == self.spec_colors(),
    ;

    fn indices(&self) -> (r: &Vec<u16>)
        ensures
            r@ == self.spec_indices(),
    ;
}

impl Mesh for PlyMesh {
    open spec fn spec_vertices(&self) -> Seq<u32> {
        self.vertices@
    }

    open spec fn spec_normals(&self) -> Seq<u32> {
        self.normals@
    }

    open spec fn spec_colors(&self) -> Seq<u32> {
        self.colors@
    }

    open spec fn spec_indices(&self) -> Seq<u16> {
        self.indices@
    }

    fn vertices(&self) -> (r: &Vec<u32>) {
        &self.vertices
    }

    fn normals(&self) -> (r: &Vec<u32>) {
        &self.normals
    }

    fn colors(&self) -> (r: &Vec<u32>) {
        &self.colors
    }

    fn indices(&self) -> (r: &Vec<u16>) {
        &self.indices
    }
}

/// The 24 corner positions of the unit cube, four per face, as bit patterns.
pub open spec fn spec_cube_vertices() -> Seq<u32> {
    seq![
        F_NEG_ONE, F_NEG_ONE, F_NEG_ONE, F_ONE, F_NEG_ONE, F_NEG_ONE,
        F_ONE, F_ONE, F_NEG_ONE, F_NEG_ONE, F_ONE, F_NEG_ONE,
        F_NEG_ONE, F_NEG_ONE, F_ONE, F_ONE, F_NEG_ONE, F_ONE,
        F_ONE, F_ONE, F_ONE, F_NEG_ONE, F_ONE, F_ONE,
        F_NEG_ONE, F_NEG_ONE, F_NEG_ONE, F_NEG_ONE, F_ONE, F_NEG_ONE,
        F_NEG_ONE, F_ONE, F_ONE, F_NEG_ONE, F_NEG_ONE, F_ONE,
        F_ONE, F_NEG_ONE, F_NEG_ONE, F_ONE, F_ONE, F_NEG_ONE,
        F_ONE, F_ONE, F_ONE, F_ONE, F_NEG_ONE, F_ONE,
        F_NEG_ONE, F_NEG_ONE, F_NEG_ONE, F_NEG_ONE, F_NEG_ONE, F_ONE,
        F_ONE, F_NEG_ONE, F_ONE, F_ONE, F_NEG_ONE, F_NEG_ONE,
        F_NEG_ONE, F_ONE, F_NEG_ONE, F_NEG_ONE, F_ONE, F_ONE,
        F_ONE, F_ONE, F_ONE, F_ONE, F_ONE, F_NEG_ONE,
    ]
}

/// The per-vertex unit normals of the cube, one axis direction per face.
pub open spec fn spec_cube_normals() -> Seq<u32> {
    seq![
        F_ZERO, F_ZERO, F_NEG_ONE, F_ZERO, F_ZERO, F_NEG_ONE,
        F_ZERO, F_ZERO, F_NEG_ONE, F_ZERO, F_ZERO, F_NEG_ONE,
        F_ZERO, F_ZERO, F_ONE, F_ZERO, F_ZERO, F_ONE,
        F_ZERO, F_ZERO, F_ONE, F_ZERO, F_ZERO, F_ONE,
        F_NEG_ONE, F_ZERO, F_ZERO, F_NEG_ONE, F_ZERO, F_ZERO,
        F_NEG_ONE, F_ZERO, F_ZERO, F_NEG_ONE, F_ZERO, F_ZERO,
        F_ONE, F_ZERO, F_ZERO, F_ONE, F_ZERO, F_ZERO,
        F_ONE, F_ZERO, F_ZERO, F_ONE, F_ZERO, F_ZERO,
        F_ZERO, F_NEG_ONE, F_ZERO, F_ZERO, F_NEG_ONE, F_ZERO,
        F_ZERO, F_NEG_ONE, F_ZERO, F_ZERO, F_NEG_ONE, F_ZERO,
        F_ZERO, F_ONE, F_ZERO, F_ZERO, F_ONE, F_ZERO,
        F_ZERO, F_ONE, F_ZERO, F_ZERO, F_ONE, F_ZERO,
    ]
}

/// The fixed per-face palette of the cube.
pub open spec fn spec_cube_colors() -> Seq<u32> {
    seq![
        C_EIGHT_TENTHS, C_HALF, F_ONE, C_EIGHT_TENTHS, C_HALF, F_ONE,
        C_EIGHT_TENTHS, C_HALF, F_ONE, C_EIGHT_TENTHS, C_HALF, F_ONE,
        C_FIFTH, C_FIFTH, C_HALF, C_FIFTH, C_FIFTH, C_HALF,
        C_FIFTH, C_FIFTH, C_HALF, C_FIFTH, C_FIFTH, C_HALF,
        F_ZERO, F_ZERO, C_FIFTH, F_ZERO, F_ZERO, C_FIFTH,
        F_ZERO, F_ZERO, C_FIFTH, F_ZERO, F_ZERO, C_FIFTH,
        C_FIFTH, F_ZERO, F_ZERO, C_FIFTH, F_ZERO, F_ZERO,
        C_FIFTH, F_ZERO, F_ZERO, C_FIFTH, F_ZERO, F_ZERO,
        C_FIFTH, C_FIFTH, F_ZERO, C_FIFTH, C_FIFTH, F_ZERO,
        C_FIFTH, C_FIFTH, F_ZERO, C_FIFTH, C_FIFTH, F_ZERO,
        F_ZERO, C_FIFTH, F_ZERO, F_ZERO, C_FIFTH, F_ZERO,
        F_ZERO, C_FIFTH, F_ZERO, F_ZERO, C_FIFTH, F_ZERO,
    ]
}

/// Two triangles per cube face, as indices into the 24 corner entries.
pub open spec fn spec_cube_indices() -> Seq<u16> {
    seq![
        0, 1, 2, 0, 2, 3, 4, 5, 6, 4, 6, 7, 8, 9, 10, 8, 10, 11, 12, 13, 14, 12, 14, 15, 16, 17,
        18, 16, 18, 19, 20, 21, 22, 20, 22, 23,
    ]
}

/// The procedural unit cube: fixed attribute arrays, no document needed.
pub struct Cube {
    pub vertices: Vec<u32>,
    pub normals: Vec<u32>,
    pub colors: Vec<u32>,
    pub indices: Vec<u16>,
}

impl Cube {
    pub fn new() -> (c: Cube)
        ensures
            c.spec_vertices() == spec_cube_vertices(),
            c.spec_normals() == spec_cube_normals(),
            c.spec_colors() == spec_cube_colors(),
            c.spec_indices() == spec_cube_indices(),
    {
        let vertices: Vec<u32> = vec![
        F_NEG_ONE, F_NEG_ONE, F_NEG_ONE, F_ONE, F_NEG_ONE, F_NEG_ONE,
        F_ONE, F_ONE, F_NEG_ONE, F_NEG_ONE, F_ONE, F_NEG_ONE,
        F_NEG_ONE, F_NEG_ONE, F_ONE, F_ONE, F_NEG_ONE, F_ONE,
        F_ONE, F_ONE, F_ONE, F_NEG_ONE, F_ONE, F_ONE,
        F_NEG_ONE, F_NEG_ONE, F_NEG_ONE, F_NEG_ONE, F_ONE, F_NEG_ONE,
        F_NEG_ONE, F_ONE, F_ONE, F_NEG_ONE, F_NEG_ONE, F_ONE,
        F_ONE, F_NEG_ONE, F_NEG_ONE, F_ONE, F_ONE, F_NEG_ONE,
        F_ONE, F_ONE, F_ONE, F_ONE, F_NEG_ONE, F_ONE,
        F_NEG_ONE, F_NEG_ONE, F_NEG_ONE, F_NEG_ONE, F_NEG_ONE, F_ONE,
        F_ONE, F_NEG_ONE, F_ONE, F_ONE, F_NEG_ONE, F_NEG_ONE,
        F_NEG_ONE, F_ONE, F_NEG_ONE, F_NEG_ONE, F_ONE, F_ONE,
        F_ONE, F_ONE, F_ONE, F_ONE, F_ONE, F_NEG_ONE,
        ];
        let normals: Vec<u32> = vec![
        F_ZERO, F_ZERO, F_NEG_ONE, F_ZERO, F_ZERO, F_NEG_ONE,
        F_ZERO, F_ZERO, F_NEG_ONE, F_ZERO, F_ZERO, F_NEG_ONE,
        F_ZERO, F_ZERO, F_ONE, F_ZERO, F_ZERO, F_ONE,
        F_ZERO, F_ZERO, F_ONE, F_ZERO, F_ZERO, F_ONE,
        F_NEG_ONE, F_ZERO, F_ZERO, F_NEG_ONE, F_ZERO, F_ZERO,
        F_NEG_ONE, F_ZERO, F_ZERO, F_NEG_ONE, F_ZERO, F_ZERO,
        F_ONE, F_ZERO, F_ZERO, F_ONE, F_ZERO, F_ZERO,
        F_ONE, F_ZERO, F_ZERO, F_ONE, F_ZERO, F_ZERO,
        F_ZERO, F_NEG_ONE, F_ZERO, F_ZERO, F_NEG_ONE, F_ZERO,
        F_ZERO, F_NEG_ONE, F_ZERO, F_ZERO, F_NEG_ONE, F_ZERO,
        F_ZERO, F_ONE, F_ZERO, F_ZERO, F_ONE, F_ZERO,
        F_ZERO, F_ONE, F_ZERO, F_ZERO, F_ONE, F_ZERO,
        ];
        let colors: Vec<u32> = vec![
        C_EIGHT_TENTHS, C_HALF, F_ONE, C_EIGHT_TENTHS, C_HALF, F_ONE,
        C_EIGHT_TENTHS, C_HALF, F_ONE, C_EIGHT_TENTHS, C_HALF, F_ONE,
        C_FIFTH, C_FIFTH, C_HALF, C_FIFTH, C_FIFTH, C_HALF,
        C_FIFTH, C_FIFTH, C_HALF, C_FIFTH, C_FIFTH, C_HALF,
        F_ZERO, F_ZERO, C_FIFTH, F_ZERO, F_ZERO, C_FIFTH,
        F_ZERO, F_ZERO, C_FIFTH, F_ZERO, F_ZERO, C_FIFTH,
        C_FIFTH, F_ZERO, F_ZERO, C_FIFTH, F_ZERO, F_ZERO,
        C_FIFTH, F_ZERO, F_ZERO, C_FIFTH, F_ZERO, F_ZERO,
        C_FIFTH, C_FIFTH, F_ZERO, C_FIFTH, C_FIFTH, F_ZERO,
        C_FIFTH, C_FIFTH, F_ZERO, C_FIFTH, C_FIFTH, F_ZERO,
        F_ZERO, C_FIFTH, F_ZERO, F_ZERO, C_FIFTH, F_ZERO,
        F_ZERO, C_FIFTH, F_ZERO, F_ZERO, C_FIFTH, F_ZERO,
        ];
        let indices: Vec<u16> = vec![
            0, 1, 2, 0, 2, 3, 4, 5, 6, 4, 6, 7, 8, 9, 10, 8, 10, 11, 12, 13, 14, 12, 14, 15, 16,
            17, 18, 16, 18, 19, 20, 21, 22, 20, 22, 23,
        ];
        Cube { vertices, normals, colors, indices }
    }
}

impl Mesh for Cube {
    open spec fn spec_vertices(&self) -> Seq<u32> {
        self.vertices@
    }

    open spec fn spec_normals(&self) -> Seq<u32> {
        self.normals@
    }

    open spec fn spec_colors(&self) -> Seq<u32> {
        self.colors@
    }

    open spec fn spec_indices(&self) -> Seq<u16> {
        self.indices@
    }

    fn vertices(&self) -> (r: &Vec<u32>) {
        &self.vertices
    }

    fn normals(&self) -> (r: &Vec<u32>) {
        &self.normals
    }

    fn colors(&self) -> (r: &Vec<u32>) {
        &self.colors
    }

    fn indices(&self) -> (r: &Vec<u16>) {
        &self.indices
    }
}

/// The cube's arrays satisfy the mesh invariant: 24 position, normal and
/// color triples, and every one of the 36 indices names one of the 24
/// corners.
pub proof fn lemma_cube_wf()
    ensures
        spec_cube_vertices().len() == 72,
        spec_cube_normals().len() == 72,
        spec_cube_colors().len() == 72,
        spec_cube_indices().len() == 36,
        forall|i: int| 0 <= i < 36 ==> (#[trigger] spec_cube_indices()[i]) < 24,
{
}

} // verus!
