use vstd::prelude::*;
use crate::terrain::{cell_x, cell_y, cell_z, lemma_cell_decode, Chunk, ChunkPos, Voxel};

verus! {

/// A vertex position in world units. Every vertex of a cube-soup mesh sits
/// on the integer lattice, so the coordinates are integers; a rendering
/// collaborator may widen them to its own number format.
#[derive(Clone, Copy, PartialEq, Eq, Structural, Debug)]
pub struct Vertex {
    pub x: i64,
    pub y: i64,
    pub z: i64,
}

/// A `u32` index buffer read as mathematical integers.
pub open spec fn to_int_seq(s: Seq<u32>) -> Seq<int> {
    s.map_values(|v: u32| v as int)
}

/// The eight corners of the unit cube whose minimum corner is `(x, y, z)`,
/// in the fixed order that the index template below refers to: corners 0 to
/// 3 ring the top face, corners 4 to 7 ring the bottom face.
pub open spec fn spec_cube_vertices(x: int, y: int, z: int) -> Seq<Vertex> {
    seq![
        Vertex { x: x as i64, y: (y + 1) as i64, z: (z + 1) as i64 },
        Vertex { x: (x + 1) as i64, y: (y + 1) as i64, z: (z + 1) as i64 },
        Vertex { x: (x + 1) as i64, y: (y + 1) as i64, z: z as i64 },
        Vertex { x: x as i64, y: (y + 1) as i64, z: z as i64 },
        Vertex { x: x as i64, y: y as i64, z: z as i64 },
        Vertex { x: (x + 1) as i64, y: y as i64, z: z as i64 },
        Vertex { x: (x + 1) as i64, y: y as i64, z: (z + 1) as i64 },
        Vertex { x: x as i64, y: y as i64, z: (z + 1) as i64 },
    ]
}

/// The 36 indices of one cube, offset by the cube's base index: two
/// triangles per face, each wound counter-clockwise as seen from outside the
/// cube, so every face normal points outward.
pub open spec fn spec_cube_indices(base: int) -> Seq<int> {
    seq![
        base + 0, base + 1, base + 2, base + 2, base + 3, base + 0,
        base + 4, base + 5, base + 6, base + 6, base + 7, base + 4,
        base + 0, base + 3, base + 4, base + 4, base + 7, base + 0,
        base + 2, base + 1, base + 6, base + 6, base + 5, base + 2,
        base + 7, base + 6, base + 1, base + 1, base + 0, base + 7,
        base + 5, base + 4, base + 3, base + 3, base + 2, base + 5,
    ]
}

/// The corner vertices of the unit cube at `(x, y, z)`, as one buffer.
pub fn generate_cube_vertices(x: i64, y: i64, z: i64) -> (vertices: Vec<Vertex>)
    requires
        x < i64::MAX,
        y < i64::MAX,
        z < i64::MAX,
    ensures
        vertices@ == spec_cube_vertices(x as int, y as int, z as int),
        vertices@.len() == 8,
{
    let mut vertices: Vec<Vertex> = Vec::new();
    vertices.push(Vertex { x, y: y + 1, z: z + 1 });
    vertices.push(Vertex { x: x + 1, y: y + 1, z: z + 1 });
    vertices.push(Vertex { x: x + 1, y: y + 1, z });
    vertices.push(Vertex { x, y: y + 1, z });
    vertices.push(Vertex { x, y, z });
    vertices.push(Vertex { x: x + 1, y, z });
    vertices.push(Vertex { x: x + 1, y, z: z + 1 });
    vertices.push(Vertex { x, y, z: z + 1 });
    proof {
        assert(vertices@ =~= spec_cube_vertices(x as int, y as int, z as int));
    }
    vertices
}

/// The index buffer of one cube whose corner vertices begin at index
/// `start` of the vertex buffer.
pub fn generate_cube_indices(start: u32) -> (indices: Vec<u32>)
    requires
        start + 7 <= u32::MAX,
    ensures
        to_int_seq(indices@) == spec_cube_indices(start as int),
        indices@.len() == 36,
{
    let mut indices: Vec<u32> = Vec::new();
    indices.push(start);
    indices.push(start + 1);
    indices.push(start + 2);
    indices.push(start + 2);
    indices.push(start + 3);
    indices.push(start);
    indices.push(start + 4);
    indices.push(start + 5);
    indices.push(start + 6);
    indices.push(start + 6);
    indices.push(start + 7);
    indices.push(start + 4);
    indices.push(start);
    indices.push(start + 3);
    indices.push(start + 4);
    indices.push(start + 4);
    indices.push(start + 7);
    indices.push(start);
    indices.push(start + 2);
    indices.push(start + 1);
    indices.push(start + 6);
    indices.push(start + 6);
    indices.push(start + 5);
    indices.push(start + 2);
    indices.push(start + 7);
    indices.push(start + 6);
    indices.push(start + 1);
    indices.push(start + 1);
    indices.push(start);
    indices.push(start + 7);
    indices.push(start + 5);
    indices.push(start + 4);
    indices.push(start + 3);
    indices.push(start + 3);
    indices.push(start + 2);
    indices.push(start + 5);
    proof {
        assert(to_int_seq(indices@) =~= spec_cube_indices(start as int));
    }
    indices
}

/// A sparse association from chunk coordinate to chunk. Entries are kept in
/// insertion order and keys stay unique; meshing walks the entries in that
/// order.
pub struct ChunkMap {
    entries: Vec<(ChunkPos, Chunk)>,
}

impl View for ChunkMap {
    type V = Seq<(ChunkPos, Chunk)>;

    closed spec fn view(&self) -> Seq<(ChunkPos, Chunk)> {
        self.entries@
    }
}

/// Whether some entry of the sequence carries the given chunk coordinate.
pub open spec fn spec_has_key(entries: Seq<(ChunkPos, Chunk)>, pos: ChunkPos) -> bool {
    exists|i: int| 0 <= i < entries.len() && (#[trigger] entries[i]).0 == pos
}

impl ChunkMap {
    /// Every held chunk is well formed and no coordinate appears twice.
    pub open spec fn wf(&self) -> bool {
        (forall|i: int| 0 <= i < self@.len() ==> (#[trigger] self@[i]).1.wf()) && (forall|
            i: int,
            j: int,
        |
            0 <= i < j < self@.len() ==> self@[i].0 != self@[j].0)
    }

    /// An empty map.
    pub fn new() -> (map: ChunkMap)
        ensures
            map@ == Seq::<(ChunkPos, Chunk)>::empty(),
            map.wf(),
    {
        ChunkMap { entries: Vec::new() }
    }

    /// How many chunks the map holds.
    pub fn len(&self) -> (n: usize)
        ensures
            n == self@.len(),
    {
        self.entries.len()
    }

    /// Whether a chunk is already stored under the given coordinate.
    pub fn contains_key(&self, pos: ChunkPos) -> (found: bool)
        ensures
            found == spec_has_key(self@, pos),
    {
        let n = self.entries.len();
        for k in 0..n
            invariant
                n == self@.len(),
                forall|i: int| 0 <= i < k ==> (#[trigger] self@[i]).0 != pos,
        {
            if self.entries[k].0 == pos {
                return true;
            }
        }
        false
    }

    /// Store a chunk under a coordinate that the map does not hold yet; the
    /// entry is appended after the existing ones.
    pub fn insert(&mut self, pos: ChunkPos, chunk: Chunk)
        requires
            old(self).wf(),
            chunk.wf(),
            !spec_has_key(old(self)@, pos),
        ensures
            final(self)@ == old(self)@.push((pos, chunk)),
            final(self).wf(),
    {
        self.entries.push((pos, chunk));
    }
}

/// Number of solid cells among the first `n` entries of a solidity sequence.
pub open spec fn solid_count_prefix(solids: Seq<bool>, n: int) -> int
    decreases n,
{
    if n <= 0 {
        0
    } else {
        solid_count_prefix(solids, n - 1) + if solids[n - 1] {
            1int
        } else {
            0int
        }
    }
}

/// The vertices that meshing the first `n` cells of a chunk emits: eight
/// corners for every solid cell, in cell order, positioned from the chunk's
/// world origin `(ox, oy, oz)`.
pub open spec fn spec_chunk_verts(
    solids: Seq<bool>,
    s: int,
    ox: int,
    oy: int,
    oz: int,
    n: int,
) -> Seq<Vertex>
    decreases n,
{
    if n <= 0 {
        Seq::empty()
    } else {
        spec_chunk_verts(solids, s, ox, oy, oz, n - 1) + if solids[n - 1] {
            spec_cube_vertices(
                ox + cell_x(s, n - 1),
                oy + cell_y(s, n - 1),
                oz + cell_z(s, n - 1),
            )
        } else {
            Seq::empty()
        }
    }
}

/// The indices that meshing the first `n` cells of a chunk emits, when the
/// chunk's first own vertex stands at position `base` of the vertex buffer:
/// 36 indices for every solid cell, each cube referring to its own eight
/// corners.
pub open spec fn spec_chunk_inds(solids: Seq<bool>, base: int, n: int) -> Seq<int>
    decreases n,
{
    if n <= 0 {
        Seq::empty()
    } else {
        spec_chunk_inds(solids, base, n - 1) + if solids[n - 1] {
            spec_cube_indices(base + 8 * solid_count_prefix(solids, n - 1))
        } else {
            Seq::empty()
        }
    }
}

/// Total number of solid cells over the first `n` chunks of a map.
pub open spec fn spec_total_solid_prefix(entries: Seq<(ChunkPos, Chunk)>, n: int) -> int
    decreases n,
{
    if n <= 0 {
        0
    } else {
        spec_total_solid_prefix(entries, n - 1) + solid_count_prefix(
            entries[n - 1].1.solids(),
            entries[n - 1].1.voxels.len() as int,
        )
    }
}

/// Total number of solid cells over all chunks of a map.
pub open spec fn spec_total_solid(entries: Seq<(ChunkPos, Chunk)>) -> int {
    spec_total_solid_prefix(entries, entries.len() as int)
}

/// The vertex buffer of meshing the first `n` chunks of a map, in entry
/// order; each chunk's world origin is its coordinate times its edge length.
pub open spec fn spec_map_verts(entries: Seq<(ChunkPos, Chunk)>, n: int) -> Seq<Vertex>
    decreases n,
{
    if n <= 0 {
        Seq::empty()
    } else {
        let p = entries[n - 1].0;
        let c = entries[n - 1].1;
        spec_map_verts(entries, n - 1) + spec_chunk_verts(
            c.solids(),
            c.size as int,
            (p.x as int) * (c.size as int),
            (p.y as int) * (c.size as int),
            (p.z as int) * (c.size as int),
            c.voxels.len() as int,
        )
    }
}

/// The index buffer of meshing the first `n` chunks of a map: each chunk's
/// base index is the number of vertices emitted before it.
pub open spec fn spec_map_inds(entries: Seq<(ChunkPos, Chunk)>, n: int) -> Seq<int>
    decreases n,
{
    if n <= 0 {
        Seq::empty()
    } else {
        let c = entries[n - 1].1;
        spec_map_inds(entries, n - 1) + spec_chunk_inds(
            c.solids(),
            spec_map_verts(entries, n - 1).len() as int,
            c.voxels.len() as int,
        )
    }
}

proof fn lemma_solid_count_bounds(solids: Seq<bool>, n: int)
    requires
        0 <= n,
    ensures
        0 <= solid_count_prefix(solids, n) <= n,
    decreases n,
{
    if n > 0 {
        lemma_solid_count_bounds(solids, n - 1);
    }
}

proof fn lemma_solid_count_mono(solids: Seq<bool>, m: int, n: int)
    requires
        0 <= m <= n,
    ensures
        solid_count_prefix(solids, m) <= solid_count_prefix(solids, n),
    decreases n,
{
    if m < n {
        lemma_solid_count_mono(solids, m, n - 1);
    }
}

proof fn lemma_solid_count_full(solids: Seq<bool>, n: int)
    requires
        0 <= n,
        forall|i: int| 0 <= i < n ==> solids[i],
    ensures
        solid_count_prefix(solids, n) == n,
    decreases n,
{
    if n > 0 {
        lemma_solid_count_full(solids, n - 1);
    }
}

proof fn lemma_chunk_verts_len(solids: Seq<bool>, s: int, ox: int, oy: int, oz: int, n: int)
    requires
        0 <= n,
    ensures
        spec_chunk_verts(solids, s, ox, oy, oz, n).len() == 8 * solid_count_prefix(solids, n),
    decreases n,
{
    if n > 0 {
        lemma_chunk_verts_len(solids, s, ox, oy, oz, n - 1);
    }
}

proof fn lemma_chunk_inds_len(solids: Seq<bool>, base: int, n: int)
    requires
        0 <= n,
    ensures
        spec_chunk_inds(solids, base, n).len() == 36 * solid_count_prefix(solids, n),
    decreases n,
{
    if n > 0 {
        lemma_chunk_inds_len(solids, base, n - 1);
    }
}

proof fn lemma_chunk_inds_bounds(solids: Seq<bool>, base: int, n: int)
    requires
        0 <= n,
    ensures
        forall|t: int|
            0 <= t < spec_chunk_inds(solids, base, n).len() ==> base <= #[trigger] spec_chunk_inds(
                solids,
                base,
                n,
            )[t] < base + 8 * solid_count_prefix(solids, n),
    decreases n,
{
    if n > 0 {
        lemma_chunk_inds_bounds(solids, base, n - 1);
        lemma_chunk_inds_len(solids, base, n - 1);
        let prev = spec_chunk_inds(solids, base, n - 1);
        let whole = spec_chunk_inds(solids, base, n);
        if solids[n - 1] {
            let cube_base = base + 8 * solid_count_prefix(solids, n - 1);
            assert(forall|j: int|
                0 <= j < 36 ==> cube_base <= #[trigger] spec_cube_indices(cube_base)[j]
                    < cube_base + 8);
            assert forall|t: int| 0 <= t < whole.len() implies base <= #[trigger] whole[t] < base
                + 8 * solid_count_prefix(solids, n) by {
                if t < prev.len() {
                    assert(whole[t] == prev[t]);
                } else {
                    assert(whole[t] == spec_cube_indices(cube_base)[t - prev.len()]);
                }
            }
        } else {
            assert forall|t: int| 0 <= t < whole.len() implies base <= #[trigger] whole[t] < base
                + 8 * solid_count_prefix(solids, n) by {
                assert(whole[t] == prev[t]);
            }
        }
    }
}

proof fn lemma_to_int_seq_concat(a: Seq<u32>, b: Seq<u32>)
    ensures
        to_int_seq(a + b) == to_int_seq(a) + to_int_seq(b),
{
    assert(to_int_seq(a + b) =~= to_int_seq(a) + to_int_seq(b));
}

proof fn lemma_total_solid_prefix_nonneg(entries: Seq<(ChunkPos, Chunk)>, n: int)
    requires
        0 <= n,
    ensures
        0 <= spec_total_solid_prefix(entries, n),
    decreases n,
{
    if n > 0 {
        lemma_total_solid_prefix_nonneg(entries, n - 1);
        lemma_solid_count_bounds(
            entries[n - 1].1.solids(),
            entries[n - 1].1.voxels.len() as int,
        );
    }
}

proof fn lemma_total_solid_prefix_mono(entries: Seq<(ChunkPos, Chunk)>, m: int, n: int)
    requires
        0 <= m <= n,
    ensures
        0 <= spec_total_solid_prefix(entries, m) <= spec_total_solid_prefix(entries, n),
    decreases n,
{
    lemma_total_solid_prefix_nonneg(entries, m);
    if m < n {
        lemma_total_solid_prefix_mono(entries, m, n - 1);
        lemma_solid_count_bounds(
            entries[n - 1].1.solids(),
            entries[n - 1].1.voxels.len() as int,
        );
    }
}

proof fn lemma_map_verts_len(entries: Seq<(ChunkPos, Chunk)>, n: int)
    requires
        0 <= n,
    ensures
        spec_map_verts(entries, n).len() == 8 * spec_total_solid_prefix(entries, n),
    decreases n,
{
    if n > 0 {
        lemma_map_verts_len(entries, n - 1);
        let p = entries[n - 1].0;
        let c = entries[n - 1].1;
        lemma_chunk_verts_len(
            c.solids(),
            c.size as int,
            (p.x as int) * (c.size as int),
            (p.y as int) * (c.size as int),
            (p.z as int) * (c.size as int),
            c.voxels.len() as int,
        );
    }
}

proof fn lemma_map_inds_len(entries: Seq<(ChunkPos, Chunk)>, n: int)
    requires
        0 <= n,
    ensures
        spec_map_inds(entries, n).len() == 36 * spec_total_solid_prefix(entries, n),
    decreases n,
{
    if n > 0 {
        lemma_map_inds_len(entries, n - 1);
        let c = entries[n - 1].1;
        lemma_chunk_inds_len(
            c.solids(),
            spec_map_verts(entries, n - 1).len() as int,
            c.voxels.len() as int,
        );
    }
}

proof fn lemma_map_inds_bounds(entries: Seq<(ChunkPos, Chunk)>, n: int)
    requires
        0 <= n,
    ensures
        forall|t: int|
            0 <= t < spec_map_inds(entries, n).len() ==> 0 <= #[trigger] spec_map_inds(
                entries,
                n,
            )[t] < spec_map_verts(entries, n).len(),
    decreases n,
{
    if n > 0 {
        lemma_map_inds_bounds(entries, n - 1);
        let p = entries[n - 1].0;
        let c = entries[n - 1].1;
        let base = spec_map_verts(entries, n - 1).len() as int;
        let cells = c.voxels.len() as int;
        lemma_chunk_inds_bounds(c.solids(), base, cells);
        lemma_chunk_inds_len(c.solids(), base, cells);
        lemma_map_inds_len(entries, n - 1);
        lemma_chunk_verts_len(
            c.solids(),
            c.size as int,
            (p.x as int) * (c.size as int),
            (p.y as int) * (c.size as int),
            (p.z as int) * (c.size as int),
            cells,
        );
        let prev = spec_map_inds(entries, n - 1);
        let whole = spec_map_inds(entries, n);
        let cpart = spec_chunk_inds(c.solids(), base, cells);
        assert(spec_map_verts(entries, n).len() == base + 8 * solid_count_prefix(
            c.solids(),
            cells,
        ));
        assert forall|t: int| 0 <= t < whole.len() implies 0 <= #[trigger] whole[t]
            < spec_map_verts(entries, n).len() by {
            if t < prev.len() {
                assert(whole[t] == prev[t]);
            } else {
                assert(whole[t] == cpart[t - prev.len()]);
            }
        }
    }
}

/// Emptiness round trip: a map whose chunks hold no solid voxel at all
/// meshes to an empty vertex buffer and an empty index buffer.
pub proof fn lemma_empty_mesh(entries: Seq<(ChunkPos, Chunk)>)
    requires
        spec_total_solid(entries) == 0,
    ensures
        spec_map_verts(entries, entries.len() as int) == Seq::<Vertex>::empty(),
        spec_map_inds(entries, entries.len() as int) == Seq::<int>::empty(),
{
    lemma_map_verts_len(entries, entries.len() as int);
    lemma_map_inds_len(entries, entries.len() as int);
    assert(spec_map_verts(entries, entries.len() as int) =~= Seq::<Vertex>::empty());
    assert(spec_map_inds(entries, entries.len() as int) =~= Seq::<int>::empty());
}

/// Full-solid cube count: a map holding one fully solid chunk meshes to
/// exactly one cube per cell, eight vertices and 36 indices each.
pub proof fn lemma_full_solid_mesh(pos: ChunkPos, chunk: Chunk)
    requires
        chunk.wf(),
        forall|i: int| 0 <= i < chunk.solids().len() ==> chunk.solids()[i],
    ensures
        spec_map_verts(seq![(pos, chunk)], 1).len() == 8 * (chunk.size * chunk.size * chunk.size),
        spec_map_inds(seq![(pos, chunk)], 1).len() == 36 * (chunk.size * chunk.size
            * chunk.size),
{
    let entries: Seq<(ChunkPos, Chunk)> = seq![(pos, chunk)];
    lemma_map_verts_len(entries, 1);
    lemma_map_inds_len(entries, 1);
    lemma_solid_count_full(chunk.solids(), chunk.voxels.len() as int);
    assert(spec_total_solid_prefix(entries, 0) == 0);
    assert(spec_total_solid_prefix(entries, 1) == solid_count_prefix(
        chunk.solids(),
        chunk.voxels.len() as int,
    ));
}

proof fn lemma_origin_in_range(c: int, s: int)
    requires
        -0x80000000 <= c <= 0x7fffffff,
        1 <= s <= 1024,
    ensures
        -0x20000000000 <= c * s <= 0x20000000000,
{
    assert(-0x20000000000 <= c * s <= 0x20000000000) by (nonlinear_arith)
        requires
            -0x80000000 <= c <= 0x7fffffff,
            1 <= s <= 1024,
    ;
}

/// Mesh one chunk into fresh buffers. `base` is the index that the chunk's
/// first vertex will have once the vertex buffer is appended after `base`
/// earlier vertices.
#[verifier::loop_isolation(false)]
fn mesh_chunk(pos: ChunkPos, chunk: &Chunk, base: u32) -> (r: (Vec<Vertex>, Vec<u32>))
    requires
        chunk.wf(),
        base + 8 * solid_count_prefix(chunk.solids(), chunk.voxels.len() as int) <= u32::MAX,
    ensures
        r.0@ == spec_chunk_verts(
            chunk.solids(),
            chunk.size as int,
            (pos.x as int) * (chunk.size as int),
            (pos.y as int) * (chunk.size as int),
            (pos.z as int) * (chunk.size as int),
            chunk.voxels.len() as int,
        ),
        to_int_seq(r.1@) == spec_chunk_inds(
            chunk.solids(),
            base as int,
            chunk.voxels.len() as int,
        ),
{
    let s: usize = chunk.size;
    proof {
        lemma_origin_in_range(pos.x as int, s as int);
        lemma_origin_in_range(pos.y as int, s as int);
        lemma_origin_in_range(pos.z as int, s as int);
    }
    let ox: i64 = (pos.x as i64) * (s as i64);
    let oy: i64 = (pos.y as i64) * (s as i64);
    let oz: i64 = (pos.z as i64) * (s as i64);
    let ghost solids = chunk.solids();
    let ghost cells = chunk.voxels.len() as int;
    let mut vertices: Vec<Vertex> = Vec::new();
    let mut indices: Vec<u32> = Vec::new();
    proof {
        assert(vertices@ =~= spec_chunk_verts(solids, s as int, ox as int, oy as int, oz as int, 0));
        assert(to_int_seq(indices@) =~= spec_chunk_inds(solids, base as int, 0));
        assert((0int) * (s as int) * (s as int) == 0);
    }
    for z in 0..s
        invariant
            vertices@ == spec_chunk_verts(
                solids,
                s as int,
                ox as int,
                oy as int,
                oz as int,
                (z as int) * (s as int) * (s as int),
            ),
            to_int_seq(indices@) == spec_chunk_inds(
                solids,
                base as int,
                (z as int) * (s as int) * (s as int),
            ),
    {
        for y in 0..s
            invariant
                vertices@ == spec_chunk_verts(
                    solids,
                    s as int,
                    ox as int,
                    oy as int,
                    oz as int,
                    (z as int) * (s as int) * (s as int) + (y as int) * (s as int),
                ),
                to_int_seq(indices@) == spec_chunk_inds(
                    solids,
                    base as int,
                    (z as int) * (s as int) * (s as int) + (y as int) * (s as int),
                ),
        {
            for x in 0..s
                invariant
                    vertices@ == spec_chunk_verts(
                        solids,
                        s as int,
                        ox as int,
                        oy as int,
                        oz as int,
                        (z as int) * (s as int) * (s as int) + (y as int) * (s as int) + (
                        x as int),
                    ),
                    to_int_seq(indices@) == spec_chunk_inds(
                        solids,
                        base as int,
                        (z as int) * (s as int) * (s as int) + (y as int) * (s as int) + (
                        x as int),
                    ),
            {
                proof {
                    assert((z as int) * (s as int) * (s as int) + (y as int) * (s as int) + (
                    x as int) == ((z as int) * (s as int) + (y as int)) * (s as int) + (
                    x as int) && ((z as int) * (s as int) + (y as int)) * (s as int) + (x as int)
                        < (s as int) * (s as int) * (s as int) && (z as int) * (s as int) + (
                    y as int) < (s as int) * (s as int) && (s as int) * (s as int) <= 1048576
                        && (s as int) * (s as int) * (s as int) <= 1073741824) by (nonlinear_arith)
                        requires
                            0 <= (x as int) < (s as int),
                            0 <= (y as int) < (s as int),
                            0 <= (z as int) < (s as int),
                            1 <= (s as int) <= 1024,
                    ;
                }
                let ghost i = (z as int) * (s as int) * (s as int) + (y as int) * (s as int) + (
                x as int);
                let idx: usize = (z * s + y) * s + x;
                let solid = chunk.voxels[idx].is_solid;
                proof {
                    lemma_cell_decode(s as int, x as int, y as int, z as int);
                    lemma_chunk_verts_len(solids, s as int, ox as int, oy as int, oz as int, i);
                    lemma_solid_count_bounds(solids, i);
                    lemma_solid_count_mono(solids, i + 1, cells);
                }
                if solid {
                    let cube_base: u32 = base + (vertices.len() as u32);
                    let mut cv = generate_cube_vertices(
                        ox + (x as i64),
                        oy + (y as i64),
                        oz + (z as i64),
                    );
                    let mut ci = generate_cube_indices(cube_base);
                    let ghost pre_verts = vertices@;
                    let ghost pre_inds = indices@;
                    let ghost cube_inds = ci@;
                    vertices.append(&mut cv);
                    indices.append(&mut ci);
                    proof {
                        lemma_to_int_seq_concat(pre_inds, cube_inds);
                        assert(vertices@ == spec_chunk_verts(
                            solids,
                            s as int,
                            ox as int,
                            oy as int,
                            oz as int,
                            i + 1,
                        ));
                        assert(to_int_seq(indices@) == spec_chunk_inds(
                            solids,
                            base as int,
                            i + 1,
                        ));
                    }
                } else {
                    proof {
                        assert(spec_chunk_verts(solids, s as int, ox as int, oy as int, oz as int, i)
                            + Seq::<Vertex>::empty() =~= spec_chunk_verts(
                            solids,
                            s as int,
                            ox as int,
                            oy as int,
                            oz as int,
                            i,
                        ));
                        assert(spec_chunk_inds(solids, base as int, i) + Seq::<int>::empty()
                            =~= spec_chunk_inds(solids, base as int, i));
                    }
                }
            }
            proof {
                assert((z as int) * (s as int) * (s as int) + (y as int) * (s as int) + (s as int)
                    == (z as int) * (s as int) * (s as int) + ((y as int) + 1) * (s as int))
                    by (nonlinear_arith);
            }
        }
        proof {
            assert((z as int) * (s as int) * (s as int) + (s as int) * (s as int) == ((
            z as int) + 1) * (s as int) * (s as int)) by (nonlinear_arith);
        }
    }
    (vertices, indices)
}

/// Mesh every chunk of the map, in entry order, into one vertex buffer and
/// one triangle-index buffer: one axis-aligned unit cube for every solid
/// voxel, eight fresh corner vertices and twelve outward-wound triangles per
/// cube, with no sharing between cubes. The buffers are always well formed:
/// the index count is a multiple of three, the vertex count is eight per
/// solid voxel, and every index refers into the vertex buffer.
#[verifier::loop_isolation(false)]
pub fn generate_mesh(chunk_map: &ChunkMap) -> (r: (Vec<Vertex>, Vec<u32>))
    requires
        chunk_map.wf(),
        8 * spec_total_solid(chunk_map@) <= u32::MAX,
    ensures
        r.0@ == spec_map_verts(chunk_map@, chunk_map@.len() as int),
        to_int_seq(r.1@) == spec_map_inds(chunk_map@, chunk_map@.len() as int),
        r.0@.len() == 8 * spec_total_solid(chunk_map@),
        r.1@.len() == 36 * spec_total_solid(chunk_map@),
        r.1@.len() % 3 == 0,
        forall|t: int| 0 <= t < r.1@.len() ==> (#[trigger] r.1@[t]) < r.0@.len(),
{
    let ghost entries = chunk_map@;
    let mut vertices: Vec<Vertex> = Vec::new();
    let mut indices: Vec<u32> = Vec::new();
    let n: usize = chunk_map.entries.len();
    for k in 0..n
        invariant
            vertices@ == spec_map_verts(entries, k as int),
            to_int_seq(indices@) == spec_map_inds(entries, k as int),
    {
        let entry: &(ChunkPos, Chunk) = &chunk_map.entries[k];
        let pos: ChunkPos = entry.0;
        let chunk: &Chunk = &entry.1;
        proof {
            assert(entries[k as int].1.wf());
            lemma_map_verts_len(entries, k as int);
            lemma_total_solid_prefix_mono(entries, k as int, n as int);
            lemma_total_solid_prefix_mono(entries, k as int + 1, n as int);
            lemma_solid_count_bounds(chunk.solids(), chunk.voxels.len() as int);
        }
        let base: u32 = vertices.len() as u32;
        let (mut cv, mut ci) = mesh_chunk(pos, chunk, base);
        let ghost pre_inds = indices@;
        let ghost chunk_inds = ci@;
        vertices.append(&mut cv);
        indices.append(&mut ci);
        proof {
            lemma_to_int_seq_concat(pre_inds, chunk_inds);
            assert(vertices@ == spec_map_verts(entries, k as int + 1));
            assert(to_int_seq(indices@) == spec_map_inds(entries, k as int + 1));
        }
    }
    proof {
        lemma_map_verts_len(entries, n as int);
        lemma_map_inds_len(entries, n as int);
        lemma_map_inds_bounds(entries, n as int);
        vstd::arithmetic::div_mod::lemma_mod_multiples_basic(
            12 * spec_total_solid(entries),
            3,
        );
        assert(forall|t: int|
            0 <= t < indices@.len() ==> to_int_seq(indices@)[t] == (#[trigger] indices@[t]) as int);
    }
    (vertices, indices)
}

} // verus!
