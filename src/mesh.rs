//! Visible-face selection for chunk meshes: which faces of which solid blocks
//! border on a block that is not solid, possibly in a neighbouring or unloaded
//! chunk. Turning faces into vertices is left to the renderer.
use vstd::prelude::*;
use crate::chunk::{Chunk, in_chunk, in_footprint};
use crate::chunk_id::{ChunkId, CHUNK_HEIGHT, CHUNK_RADIUS, center_q, center_r};
use crate::chunks::Chunks;
use crate::columns::{ColumnId, spiral_cell, spiral_index, lemma_spiral_complete, lemma_spiral_distinct};
use crate::ipos::{IPos, dir_q, dir_r, fits_i32};

verus! {

/// Which face of a hexagonal prism block.
#[derive(Clone, Copy, Debug, PartialEq, Eq, Hash, Structural)]
pub enum FaceDir {
    /// The side face towards neighbour direction `i` (0 to 5).
    Side(u32),
    /// The face towards `z - 1`.
    Bottom,
    /// The face towards `z + 1`.
    Top,
}

/// One face of one block, at a position relative to its chunk's centre.
#[derive(Clone, Copy, Debug, PartialEq, Eq, Hash, Structural)]
pub struct Face {
    pub pos: IPos,
    pub dir: FaceDir,
}

/// Absolute position of a position relative to the centre of chunk `id`.
pub open spec fn absolute(id: ChunkId, rel: IPos) -> IPos {
    IPos {
        q: (rel.q + center_q(id.q as int, id.r as int)) as i32,
        r: (rel.r + center_r(id.q as int, id.r as int)) as i32,
        z: (rel.z + id.z * CHUNK_HEIGHT) as i32,
    }
}

/// The block that face `dir` of the block at `p` looks at.
pub open spec fn facing(p: IPos, dir: FaceDir) -> IPos {
    match dir {
        FaceDir::Side(i) => IPos { q: (p.q + dir_q(i as int)) as i32, r: (p.r + dir_r(i as int)) as i32, z: p.z },
        FaceDir::Bottom => IPos { q: p.q, r: p.r, z: (p.z - 1) as i32 },
        FaceDir::Top => IPos { q: p.q, r: p.r, z: (p.z + 1) as i32 },
    }
}

pub open spec fn valid_dir(dir: FaceDir) -> bool {
    match dir {
        FaceDir::Side(i) => i < 6,
        _ => true,
    }
}

/// Whether face `f` of chunk `id` belongs in the chunk's mesh: its block is
/// solid, the block it faces (possibly in another chunk) is not solid or not
/// loaded, and it is not the underside of the world floor at height 0.
pub open spec fn face_visible(chunks: Chunks, id: ChunkId, f: Face) -> bool {
    let abs = absolute(id, f.pos);
    &&& in_chunk(f.pos)
    &&& valid_dir(f.dir)
    &&& chunks.contents()[id].spec_block(f.pos).spec_is_solid()
    &&& !chunks.spec_is_solid(facing(abs, f.dir))
    &&& !(f.dir == FaceDir::Bottom && abs.z == 0)
}

/// Order of faces within one column: the six side directions, each from the
/// bottom up, then bottom and top face of each level from the bottom up.
pub open spec fn face_key(f: Face) -> int {
    match f.dir {
        FaceDir::Side(i) => i * CHUNK_HEIGHT + f.pos.z,
        FaceDir::Bottom => 6 * CHUNK_HEIGHT + 2 * f.pos.z,
        FaceDir::Top => 6 * CHUNK_HEIGHT + 2 * f.pos.z + 1,
    }
}

impl ChunkId {
    /// Every block of this chunk and each of its neighbours has an absolute
    /// position whose coordinates fit in `i32`.
    pub open spec fn in_world(self) -> bool {
        &&& i32::MIN + CHUNK_RADIUS + 1 <= center_q(self.q as int, self.r as int) <= i32::MAX - CHUNK_RADIUS - 1
        &&& i32::MIN + CHUNK_RADIUS + 1 <= center_r(self.q as int, self.r as int) <= i32::MAX - CHUNK_RADIUS - 1
        &&& i32::MIN + 1 <= self.z * CHUNK_HEIGHT
        &&& self.z * CHUNK_HEIGHT + CHUNK_HEIGHT <= i32::MAX
    }
}

/// Absolute position of `rel`, a position inside chunk `id`.
fn absolute_pos(id: &ChunkId, rel: &IPos) -> (abs: IPos)
    requires
        id.in_world(),
        in_chunk(*rel),
    ensures
        abs == absolute(*id, *rel),
        fits_i32(abs.q + 1) && fits_i32(abs.q - 1),
        fits_i32(abs.r + 1) && fits_i32(abs.r - 1),
        fits_i32(abs.z + 1) && fits_i32(abs.z - 1),
{
    let radius = CHUNK_RADIUS as i64;
    let height = CHUNK_HEIGHT as i64;
    assert(radius == 8 && height == 32);
    let cq = (2 * radius + 1) * (id.q as i64) + radius * (id.r as i64);
    let cr = (radius + 1) * (id.r as i64) - radius * (id.q as i64);
    let cz = (id.z as i64) * height;
    IPos { q: (rel.q as i64 + cq) as i32, r: (rel.r as i64 + cr) as i32, z: (rel.z as i64 + cz) as i32 }
}

/// The position that face `dir` of the block at `p` looks at.
fn facing_pos(p: &IPos, dir: FaceDir) -> (n: IPos)
    requires
        valid_dir(dir),
        fits_i32(p.q + 1) && fits_i32(p.q - 1),
        fits_i32(p.r + 1) && fits_i32(p.r - 1),
        fits_i32(p.z + 1) && fits_i32(p.z - 1),
    ensures
        n == facing(*p, dir),
{
    match dir {
        FaceDir::Side(i) => p.neighbour(i),
        FaceDir::Bottom => IPos { q: p.q, r: p.r, z: p.z - 1 },
        FaceDir::Top => IPos { q: p.q, r: p.r, z: p.z + 1 },
    }
}

/// Appends face `dir` of the block at `rel` of chunk `id` to `out` if it is
/// visible.
fn push_if_visible(chunks: &Chunks, id: &ChunkId, chunk: &Chunk, rel: IPos, dir: FaceDir, out: &mut Vec<Face>)
    requires
        chunks.wf(),
        chunks.contents().contains_key(*id),
        *chunk == chunks.contents()[*id],
        id.in_world(),
        in_chunk(rel),
        valid_dir(dir),
    ensures
        final(out)@ == if face_visible(*chunks, *id, Face { pos: rel, dir }) {
            old(out)@.push(Face { pos: rel, dir })
        } else {
            old(out)@
        },
{
    let solid = match chunk.block(&rel) {
        Some(block) => block.is_solid(),
        None => false,
    };
    if !solid {
        return;
    }
    let pos_absolute = absolute_pos(id, &rel);
    if dir == FaceDir::Bottom && pos_absolute.z == 0 {
        return;
    }
    let neighbour = facing_pos(&pos_absolute, dir);
    if chunks.is_solid(&neighbour) {
        return;
    }
    out.push(Face { pos: rel, dir });
}

/// Whether face `f` belongs to column `c`.
pub open spec fn in_column(f: Face, c: ColumnId) -> bool {
    f.pos.q == c.q && f.pos.r == c.r
}

/// Within one column, a face is determined by its key.
proof fn lemma_face_key_unique(f1: Face, f2: Face)
    requires
        f1.pos.q == f2.pos.q && f1.pos.r == f2.pos.r,
        0 <= f1.pos.z < CHUNK_HEIGHT && 0 <= f2.pos.z < CHUNK_HEIGHT,
        valid_dir(f1.dir) && valid_dir(f2.dir),
        face_key(f1) == face_key(f2),
    ensures
        f1 == f2,
{
    match (f1.dir, f2.dir) {
        (FaceDir::Side(i1), FaceDir::Side(i2)) => {
            let z1 = f1.pos.z as int;
            let z2 = f2.pos.z as int;
            assert(i1 == i2 && z1 == z2) by (nonlinear_arith)
                requires i1 * 32 + z1 == i2 * 32 + z2, 0 <= z1 < 32, 0 <= z2 < 32, i1 >= 0, i2 >= 0;
        },
        (FaceDir::Side(i1), _) => {
            assert(i1 * CHUNK_HEIGHT + f1.pos.z < 6 * CHUNK_HEIGHT) by (nonlinear_arith)
                requires i1 < 6, f1.pos.z < CHUNK_HEIGHT, CHUNK_HEIGHT == 32;
        },
        (_, FaceDir::Side(i2)) => {
            assert(i2 * CHUNK_HEIGHT + f2.pos.z < 6 * CHUNK_HEIGHT) by (nonlinear_arith)
                requires i2 < 6, f2.pos.z < CHUNK_HEIGHT, CHUNK_HEIGHT == 32;
        },
        _ => {},
    }
}

/// The face of column `c` with key `k`, for `0 <= k < 8 * CHUNK_HEIGHT`.
fn face_of_key(c: ColumnId, k: u32) -> (f: Face)
    requires
        k < 8 * CHUNK_HEIGHT,
    ensures
        in_column(f, c),
        0 <= f.pos.z < CHUNK_HEIGHT,
        valid_dir(f.dir),
        face_key(f) == k,
{
    let height = CHUNK_HEIGHT as u32;
    if k < 6 * height {
        let f = Face { pos: IPos { q: c.q, r: c.r, z: (k % height) as i32 }, dir: FaceDir::Side(k / height) };
        proof {
            vstd::arithmetic::div_mod::lemma_fundamental_div_mod(k as int, 32);
        }
        f
    } else {
        let v = k - 6 * height;
        let dir = if v % 2 == 0 { FaceDir::Bottom } else { FaceDir::Top };
        Face { pos: IPos { q: c.q, r: c.r, z: (v / 2) as i32 }, dir }
    }
}

/// Appends the visible faces of column `c` of chunk `id` to `out`, in key
/// order.
fn column_faces(chunks: &Chunks, id: &ChunkId, chunk: &Chunk, c: ColumnId, out: &mut Vec<Face>)
    requires
        chunks.wf(),
        chunks.contents().contains_key(*id),
        *chunk == chunks.contents()[*id],
        id.in_world(),
        in_footprint(c.q as int, c.r as int),
        old(out)@.no_duplicates(),
        forall|f: Face| old(out)@.contains(f) ==> !in_column(f, c),
    ensures
        final(out)@.no_duplicates(),
        forall|f: Face|
            #[trigger] final(out)@.contains(f) == (old(out)@.contains(f) || (in_column(f, c) && face_visible(
                *chunks,
                *id,
                f,
            ))),
{
    let ghost start = out@;
    let mut k: u32 = 0;
    while k < 8 * CHUNK_HEIGHT as u32
        invariant
            k <= 8 * CHUNK_HEIGHT,
            chunks.wf(),
            chunks.contents().contains_key(*id),
            *chunk == chunks.contents()[*id],
            id.in_world(),
            in_footprint(c.q as int, c.r as int),
            start.no_duplicates(),
            forall|f: Face| start.contains(f) ==> !in_column(f, c),
            out@.no_duplicates(),
            forall|f: Face|
                #[trigger] out@.contains(f) == (start.contains(f) || (in_column(f, c) && face_visible(*chunks, *id, f)
                    && face_key(f) < k)),
        decreases 8 * CHUNK_HEIGHT - k,
    {
        let f0 = face_of_key(c, k);
        let ghost before = out@;
        proof {
            assert(!before.contains(f0));
        }
        push_if_visible(chunks, id, chunk, f0.pos, f0.dir, out);
        proof {
            if face_visible(*chunks, *id, f0) {
                assert(out@[before.len() as int] == f0);
                assert(out@.contains(f0));
            }
            assert forall|f: Face| #[trigger] out@.contains(f) == (before.contains(f) || (face_visible(*chunks, *id, f0) && f == f0)) by {
                if out@.contains(f) {
                    let j = choose|j: int| 0 <= j < out@.len() && out@[j] == f;
                    if j < before.len() {
                        assert(before[j] == f);
                    }
                }
                if before.contains(f) {
                    let j = choose|j: int| 0 <= j < before.len() && before[j] == f;
                    assert(out@[j] == f);
                }
            }
            assert forall|f: Face|
                #[trigger] out@.contains(f) == (start.contains(f) || (in_column(f, c) && face_visible(*chunks, *id, f)
                    && face_key(f) < k + 1)) by {
                if in_column(f, c) && face_visible(*chunks, *id, f) && face_key(f) == k {
                    lemma_face_key_unique(f, f0);
                }
                if out@.contains(f) && !before.contains(f) {
                    assert(f == f0);
                }
                if f == f0 {
                    assert(face_key(f) == k);
                }
            }
        }
        k = k + 1;
    }
}

/// The visible faces of loaded chunk `chunk_id`: each face of each solid
/// block whose facing block is not solid (or not loaded), except the
/// underside of the world floor. Every such face appears exactly once.
/// Columns are visited in the order of `Chunk::chunk_columns`.
pub fn chunk_faces(chunks: &Chunks, chunk_id: &ChunkId) -> (faces: Vec<Face>)
    requires
        chunks.wf(),
        chunks.contents().contains_key(*chunk_id),
        chunk_id.in_world(),
    ensures
        faces@.no_duplicates(),
        forall|f: Face| #[trigger] faces@.contains(f) == face_visible(*chunks, *chunk_id, f),
{
    let chunk = chunks.get_chunk(chunk_id);
    let cols = Chunk::chunk_columns();
    let mut out: Vec<Face> = Vec::new();
    let mut t: usize = 0;
    while t < cols.len()
        invariant
            t <= cols@.len() == crate::chunk::CHUNK_COLUMNS,
            chunks.wf(),
            chunks.contents().contains_key(*chunk_id),
            *chunk == chunks.contents()[*chunk_id],
            chunk_id.in_world(),
            forall|u: int| 0 <= u < crate::chunk::CHUNK_COLUMNS ==> #[trigger] cols@[u]@ == spiral_cell(CHUNK_RADIUS as nat, u),
            forall|u: int| 0 <= u < crate::chunk::CHUNK_COLUMNS ==> in_footprint(#[trigger] cols@[u].q as int, cols@[u].r as int),
            out@.no_duplicates(),
            forall|f: Face|
                #[trigger] out@.contains(f) == (face_visible(*chunks, *chunk_id, f) && exists|u: int|
                    0 <= u < t && in_column(f, #[trigger] cols@[u])),
        decreases cols@.len() - t,
    {
        let c = cols[t];
        proof {
            assert forall|f: Face| out@.contains(f) implies !in_column(f, c) by {
                let u = choose|u: int| 0 <= u < t && in_column(f, #[trigger] cols@[u]);
                lemma_spiral_distinct(CHUNK_RADIUS as nat, u);
                lemma_spiral_distinct(CHUNK_RADIUS as nat, t as int);
                assert(cols@[u]@ == spiral_cell(CHUNK_RADIUS as nat, u));
                assert(cols@[t as int]@ == spiral_cell(CHUNK_RADIUS as nat, t as int));
            }
        }
        let ghost before = out@;
        column_faces(chunks, chunk_id, chunk, c, &mut out);
        proof {
            assert forall|f: Face|
                #[trigger] out@.contains(f) == (face_visible(*chunks, *chunk_id, f) && exists|u: int|
                    0 <= u < t + 1 && in_column(f, #[trigger] cols@[u])) by {
                if in_column(f, c) {
                    assert(in_column(f, cols@[t as int]));
                }
                if face_visible(*chunks, *chunk_id, f) && (exists|u: int| 0 <= u < t + 1 && in_column(f, #[trigger] cols@[u])) {
                    let u = choose|u: int| 0 <= u < t + 1 && in_column(f, #[trigger] cols@[u]);
                    if u < t {
                        assert(before.contains(f));
                    }
                }
            }
        }
        t = t + 1;
    }
    proof {
        assert forall|f: Face| #[trigger] out@.contains(f) == face_visible(*chunks, *chunk_id, f) by {
            if face_visible(*chunks, *chunk_id, f) {
                lemma_spiral_complete(CHUNK_RADIUS as nat, f.pos.q as int, f.pos.r as int);
                let u = spiral_index(f.pos.q as int, f.pos.r as int);
                assert(cols@[u]@ == spiral_cell(CHUNK_RADIUS as nat, u));
                assert(in_column(f, cols@[u]));
            }
        }
    }
    out
}

/// The face that looks back: opposite side direction, or bottom for top.
pub open spec fn opposite(dir: FaceDir) -> FaceDir {
    match dir {
        FaceDir::Side(i) => FaceDir::Side(((i + 3) % 6) as u32),
        FaceDir::Bottom => FaceDir::Top,
        FaceDir::Top => FaceDir::Bottom,
    }
}

/// The registry sees the blocks of a loaded chunk where the chunk itself has
/// them: block `rel` of chunk `id` is the registry's block at the absolute
/// position of `rel`.
pub proof fn lemma_registry_sees_chunk(chunks: Chunks, id: ChunkId, rel: IPos)
    requires
        chunks.contents().contains_key(id),
        id.in_world(),
        in_chunk(rel),
    ensures
        chunks.spec_block(absolute(id, rel)) == Some(chunks.contents()[id].spec_block(rel)),
{
    let abs = absolute(id, rel);
    let h = CHUNK_HEIGHT as int;
    vstd::arithmetic::div_mod::lemma_fundamental_div_mod_converse(abs.z as int, h, id.z as int, rel.z as int);
    assert(id.holds(abs));
    crate::chunk_id::lemma_chunk_unique(id, crate::chunks::owner(abs), abs);
    assert(crate::chunks::relative(id, abs) == rel);
}

/// Two solid blocks side by side, in one chunk or in two neighbouring loaded
/// chunks, hide the face between them from both meshes; a solid block whose
/// face looks at air or at an unloaded chunk shows that face, unless it is
/// the underside of the world floor.
pub proof fn lemma_face_between_blocks(chunks: Chunks, id1: ChunkId, f1: Face, id2: ChunkId, rel2: IPos)
    requires
        chunks.wf(),
        chunks.contents().contains_key(id1),
        id1.in_world(),
        id2.in_world(),
        in_chunk(f1.pos),
        valid_dir(f1.dir),
        chunks.contents()[id1].spec_block(f1.pos).spec_is_solid(),
    ensures
        chunks.contents().contains_key(id2) && in_chunk(rel2) && facing(absolute(id1, f1.pos), f1.dir) == absolute(
            id2,
            rel2,
        ) && chunks.contents()[id2].spec_block(rel2).spec_is_solid() ==> !face_visible(chunks, id1, f1)
            && !face_visible(chunks, id2, Face { pos: rel2, dir: opposite(f1.dir) }),
        !chunks.spec_is_solid(facing(absolute(id1, f1.pos), f1.dir)) && !(f1.dir == FaceDir::Bottom && absolute(
            id1,
            f1.pos,
        ).z == 0) ==> face_visible(chunks, id1, f1),
{
    if chunks.contents().contains_key(id2) && in_chunk(rel2) && facing(absolute(id1, f1.pos), f1.dir) == absolute(
        id2,
        rel2,
    ) && chunks.contents()[id2].spec_block(rel2).spec_is_solid() {
        lemma_registry_sees_chunk(chunks, id1, f1.pos);
        lemma_registry_sees_chunk(chunks, id2, rel2);
        let a1 = absolute(id1, f1.pos);
        let a2 = absolute(id2, rel2);
        match f1.dir {
            FaceDir::Side(i) => {
                assert(dir_q(((i + 3) % 6) as int) == -dir_q(i as int));
                assert(dir_r(((i + 3) % 6) as int) == -dir_r(i as int));
                assert(facing(a2, opposite(f1.dir)) == a1);
            },
            _ => {
                assert(facing(a2, opposite(f1.dir)) == a1);
            },
        }
    }
}

/// The underside of a block at absolute height 0 never shows, whatever lies
/// below it.
pub proof fn lemma_world_floor_hidden(chunks: Chunks, id: ChunkId, rel: IPos)
    requires
        absolute(id, rel).z == 0,
    ensures
        !face_visible(chunks, id, Face { pos: rel, dir: FaceDir::Bottom }),
{
}

} // verus!
