use vstd::prelude::*;
use vstd::arithmetic::div_mod::lemma_fundamental_div_mod_converse;
use crate::noise_field::spec_clamp_milli;
use crate::noise_field::clamp_milli;

verus! {

/// Edge length of a generated chunk, in voxels.
pub const CHUNK_EDGE: usize = 32;

/// Number of voxels in a generated chunk.
pub const CHUNK_SIZE: usize = 32 * 32 * 32;

/// World height units spanned by one unit of noise amplitude: a raw noise
/// value of `1` (one thousand thousandths) marks a surface `HEIGHT_AMPLITUDE`
/// world units above zero, and `-1` one equally far below.
pub const HEIGHT_AMPLITUDE: i64 = 16;

/// A single cell of a chunk: solid or empty.
#[derive(Clone, Copy, PartialEq, Eq, Structural, Debug)]
pub struct Voxel {
    pub is_solid: bool,
}

/// Integer coordinate of a chunk in the sparse world grid. A chunk's world
/// origin is this coordinate multiplied by the chunk's edge length.
#[derive(Clone, Copy, PartialEq, Eq, Structural, Debug)]
pub struct ChunkPos {
    pub x: i32,
    pub y: i32,
    pub z: i32,
}

/// A cubic grid of voxels with edge length `size`, stored as one flat buffer:
/// the cell with local coordinates `(x, y, z)` stands at linear index
/// `z * size^2 + y * size + x`.
pub struct Chunk {
    pub size: usize,
    pub voxels: Vec<Voxel>,
}

/// Local x coordinate of the cell at linear index `i` of a grid with edge `s`.
pub open spec fn cell_x(s: int, i: int) -> int {
    i % s
}

/// Local y coordinate of the cell at linear index `i` of a grid with edge `s`.
pub open spec fn cell_y(s: int, i: int) -> int {
    (i / s) % s
}

/// Local z coordinate of the cell at linear index `i` of a grid with edge `s`.
pub open spec fn cell_z(s: int, i: int) -> int {
    i / (s * s)
}

/// The linear index formula is inverted by `cell_x`, `cell_y` and `cell_z`.
pub proof fn lemma_cell_decode(s: int, x: int, y: int, z: int)
    requires
        1 <= s,
        0 <= x < s,
        0 <= y < s,
        0 <= z < s,
    ensures
        cell_x(s, z * s * s + y * s + x) == x,
        cell_y(s, z * s * s + y * s + x) == y,
        cell_z(s, z * s * s + y * s + x) == z,
{
    let i = z * s * s + y * s + x;
    assert(z * s * s + y * s + x == (z * s + y) * s + x) by (nonlinear_arith);
    lemma_fundamental_div_mod_converse(i, s, z * s + y, x);
    lemma_fundamental_div_mod_converse(z * s + y, s, z, y);
    assert(0 <= y * s + x < s * s) by (nonlinear_arith)
        requires
            1 <= s,
            0 <= x < s,
            0 <= y < s,
    ;
    assert(z * s * s + y * s + x == z * (s * s) + (y * s + x)) by (nonlinear_arith);
    assert(s * s >= 1) by (nonlinear_arith)
        requires
            1 <= s,
    ;
    lemma_fundamental_div_mod_converse(i, s * s, z, y * s + x);
}

impl Chunk {
    /// The buffer holds exactly one voxel per cell, and the edge length is
    /// small enough that every world coordinate of the chunk fits in `i64`.
    pub open spec fn wf(self) -> bool {
        1 <= self.size <= 1024 && self.voxels.len() == self.size * self.size * self.size
    }

    /// The solidity of each cell, in linear-index order.
    pub open spec fn solids(self) -> Seq<bool> {
        self.voxels@.map_values(|v: Voxel| v.is_solid)
    }
}

/// Which column of the chunk the cell at linear index `i` belongs to; columns
/// share one noise value and are numbered `z * CHUNK_EDGE + x`.
pub open spec fn spec_column(i: int) -> int {
    cell_z(CHUNK_EDGE as int, i) * (CHUNK_EDGE as int) + cell_x(CHUNK_EDGE as int, i)
}

/// Whether the cell at linear index `i` of the chunk at `pos` is solid, given
/// the raw noise value of each of the chunk's columns: a cell is solid
/// exactly when its world height lies at or below the surface height that the
/// column's noise value marks. Both sides are compared in thousandths of a
/// world unit, so no division is involved.
pub open spec fn spec_solid_at(pos: ChunkPos, column_noise: Seq<i64>, i: int) -> bool {
    (pos.y * (CHUNK_EDGE as int) + cell_y(CHUNK_EDGE as int, i)) * 1000 <= spec_clamp_milli(
        column_noise[spec_column(i)] as int,
    ) * (HEIGHT_AMPLITUDE as int)
}

/// The full voxel buffer of the chunk at `pos` for the given column noise
/// values: one voxel per cell, each decided by `spec_solid_at`.
pub open spec fn spec_generate(pos: ChunkPos, column_noise: Seq<i64>) -> Seq<Voxel> {
    Seq::new(CHUNK_SIZE as nat, |i: int| Voxel { is_solid: spec_solid_at(pos, column_noise, i) })
}

/// Fill the voxel grid of the chunk at `chunk_pos`. `column_noise` holds one
/// raw noise value per column of the chunk, indexed `z * CHUNK_EDGE + x`; a
/// cell is solid exactly when its world height lies at or below the surface
/// height derived from its column's value. The buffer always comes back
/// complete, with one voxel for every one of the `CHUNK_SIZE` cells.
pub fn generate_voxel_data(chunk_pos: ChunkPos, column_noise: &Vec<i64>) -> (voxels: Vec<Voxel>)
    requires
        column_noise.len() == CHUNK_EDGE * CHUNK_EDGE,
    ensures
        voxels.len() == CHUNK_SIZE,
        voxels@ == spec_generate(chunk_pos, column_noise@),
{
    let mut voxels: Vec<Voxel> = Vec::new();
    for z in 0..32usize
        invariant
            column_noise.len() == 1024,
            voxels.len() == z * 1024,
            forall|i: int|
                0 <= i < voxels.len() ==> (#[trigger] voxels[i]).is_solid == spec_solid_at(
                    chunk_pos,
                    column_noise@,
                    i,
                ),
    {
        for y in 0..32usize
            invariant
                column_noise.len() == 1024,
                z < 32,
                voxels.len() == z * 1024 + y * 32,
                forall|i: int|
                    0 <= i < voxels.len() ==> (#[trigger] voxels[i]).is_solid == spec_solid_at(
                        chunk_pos,
                        column_noise@,
                        i,
                    ),
        {
            for x in 0..32usize
                invariant
                    column_noise.len() == 1024,
                    z < 32,
                    y < 32,
                    voxels.len() == z * 1024 + y * 32 + x,
                    forall|i: int|
                        0 <= i < voxels.len() ==> (#[trigger] voxels[i]).is_solid == spec_solid_at(
                            chunk_pos,
                            column_noise@,
                            i,
                        ),
            {
                let col: usize = z * 32 + x;
                let h: i64 = clamp_milli(column_noise[col]);
                let wy: i64 = (chunk_pos.y as i64) * 32 + (y as i64);
                let is_solid = wy * 1000 <= h * HEIGHT_AMPLITUDE;
                proof {
                    lemma_cell_decode(32, x as int, y as int, z as int);
                    assert(spec_solid_at(chunk_pos, column_noise@, voxels.len() as int)
                        == is_solid);
                }
                voxels.push(Voxel { is_solid });
            }
        }
    }
    proof {
        assert(voxels@ =~= spec_generate(chunk_pos, column_noise@));
    }
    voxels
}

/// Determinism of generation: the voxel buffer is a function of the chunk
/// coordinate and the column noise values alone, so any two buffers produced
/// from the same inputs are equal cell for cell.
pub proof fn lemma_generate_deterministic(
    pos: ChunkPos,
    column_noise: Seq<i64>,
    first: Seq<Voxel>,
    second: Seq<Voxel>,
)
    requires
        first == spec_generate(pos, column_noise),
        second == spec_generate(pos, column_noise),
    ensures
        first == second,
{
}

} // verus!
