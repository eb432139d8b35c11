//! A chunk: a hexagonal footprint of block columns, each `CHUNK_HEIGHT` blocks
//! high, kept in a square storage grid.
use vstd::prelude::*;
use vstd::arithmetic::div_mod::lemma_fundamental_div_mod_converse;
use crate::block::{Block, BlockType, BiomeType};
use crate::chunk_id::{CHUNK_RADIUS, CHUNK_HEIGHT, CHUNK_BOUNDS};
use crate::columns::{ColumnId, spiral_len, spiral_cell, spiral_index, lemma_spiral_in_hexagon, lemma_spiral_complete};
use crate::ipos::{IPos, hex_len};

verus! {

/// Number of columns in a chunk's footprint: `3R^2 + 3R + 1`.
pub const CHUNK_COLUMNS: usize = 217;

/// Whether column `(q, r)`, relative to a chunk's centre, is part of the
/// chunk's hexagonal footprint.
pub open spec fn in_footprint(q: int, r: int) -> bool {
    hex_len(q, r) <= CHUNK_RADIUS
}

/// Whether a position relative to a chunk's centre lies inside the chunk.
pub open spec fn in_chunk(p: IPos) -> bool {
    in_footprint(p.q as int, p.r as int) && 0 <= p.z < CHUNK_HEIGHT
}

/// Slot of relative column `(q, r)` in a chunk's column storage.
pub open spec fn storage_index(q: int, r: int) -> int {
    (q + CHUNK_RADIUS) * CHUNK_BOUNDS + (r + CHUNK_RADIUS)
}

/// Index of relative column `(q, r)` in a grid of terrain samples laid out
/// row by row: `r` selects the row, `q` the entry in it.
pub open spec fn sample_index(q: int, r: int) -> int {
    (r + CHUNK_RADIUS) * CHUNK_BOUNDS + (q + CHUNK_RADIUS)
}

/// The block that terrain generation puts at height `z` of a column whose
/// surface level is `level`: stone below the level, air from it upwards.
pub open spec fn terrain_block(level: int, z: int, biome: BiomeType) -> Block {
    Block { block_type: if z < level { BlockType::Stone } else { BlockType::Air }, biome_type: biome }
}

/// A column inside the footprint lies inside the storage square.
pub proof fn lemma_footprint_in_storage(q: int, r: int)
    requires
        in_footprint(q, r),
    ensures
        -(CHUNK_RADIUS as int) <= q <= CHUNK_RADIUS,
        -(CHUNK_RADIUS as int) <= r <= CHUNK_RADIUS,
        0 <= storage_index(q, r) < CHUNK_BOUNDS * CHUNK_BOUNDS,
        storage_index(q, r) / (CHUNK_BOUNDS as int) == q + CHUNK_RADIUS,
        storage_index(q, r) % (CHUNK_BOUNDS as int) == r + CHUNK_RADIUS,
        0 <= sample_index(q, r) < CHUNK_BOUNDS * CHUNK_BOUNDS,
{
    lemma_fundamental_div_mod_converse(storage_index(q, r), CHUNK_BOUNDS as int, q + CHUNK_RADIUS, r + CHUNK_RADIUS);
}

/// Storage slot `i` holds relative column `(i / BOUNDS - R, i % BOUNDS - R)`.
proof fn lemma_slot_column(i: int)
    requires
        0 <= i < CHUNK_BOUNDS * CHUNK_BOUNDS,
    ensures
        storage_index(i / (CHUNK_BOUNDS as int) - CHUNK_RADIUS, i % (CHUNK_BOUNDS as int) - CHUNK_RADIUS) == i,
        0 <= i / (CHUNK_BOUNDS as int) < CHUNK_BOUNDS,
        0 <= i % (CHUNK_BOUNDS as int) < CHUNK_BOUNDS,
{
    vstd::arithmetic::div_mod::lemma_fundamental_div_mod(i, CHUNK_BOUNDS as int);
    vstd::arithmetic::div_mod::lemma_mod_bound(i, CHUNK_BOUNDS as int);
    vstd::arithmetic::div_mod::lemma_div_pos_is_pos(i, CHUNK_BOUNDS as int);
    vstd::arithmetic::div_mod::lemma_div_by_multiple_is_strongly_ordered(i, CHUNK_BOUNDS * CHUNK_BOUNDS, CHUNK_BOUNDS as int, CHUNK_BOUNDS as int);
}

/// Whether relative column `(q, r)` is in the footprint, computed.
fn footprint_contains(q: i32, r: i32) -> (v: bool)
    ensures
        v == in_footprint(q as int, r as int),
{
    let radius = CHUNK_RADIUS as i64;
    let q = q as i64;
    let r = r as i64;
    let s = -q - r;
    -radius <= q && q <= radius && -radius <= r && r <= radius && -radius <= s && s <= radius
}

/// A column of `CHUNK_HEIGHT` copies of `block`.
fn filled_column(block: Block) -> (col: Vec<Block>)
    ensures
        col@.len() == CHUNK_HEIGHT,
        forall|z: int| 0 <= z < CHUNK_HEIGHT ==> #[trigger] col@[z] == block,
{
    let mut col: Vec<Block> = Vec::new();
    let mut z: usize = 0;
    while z < CHUNK_HEIGHT
        invariant
            z <= CHUNK_HEIGHT,
            col@.len() == z,
            forall|k: int| 0 <= k < z ==> #[trigger] col@[k] == block,
        decreases CHUNK_HEIGHT - z,
    {
        col.push(block);
        z = z + 1;
    }
    col
}

/// A column of terrain: stone below `level`, air from it upwards.
fn terrain_column(level: u32, biome: BiomeType) -> (col: Vec<Block>)
    ensures
        col@.len() == CHUNK_HEIGHT,
        forall|z: int| 0 <= z < CHUNK_HEIGHT ==> #[trigger] col@[z] == terrain_block(level as int, z, biome),
{
    let mut col: Vec<Block> = Vec::new();
    let mut z: usize = 0;
    while z < CHUNK_HEIGHT
        invariant
            z <= CHUNK_HEIGHT,
            col@.len() == z,
            forall|k: int| 0 <= k < z ==> #[trigger] col@[k] == terrain_block(level as int, k, biome),
        decreases CHUNK_HEIGHT - z,
    {
        let block_type = if (z as u64) < (level as u64) { BlockType::Stone } else { BlockType::Air };
        col.push(Block { block_type, biome_type: biome });
        z = z + 1;
    }
    col
}

/// Error of a block access outside the chunk's footprint or height.
#[derive(Clone, Copy, Debug, PartialEq, Eq, Structural)]
pub struct OutOfChunk {
    /// The offending position, relative to the chunk's centre.
    pub pos: IPos,
}

/// A hexagonal chunk of blocks. Columns outside the footprint have no storage
/// at all; every column inside it holds `CHUNK_HEIGHT` blocks.
pub struct Chunk {
    columns: Vec<Option<Vec<Block>>>,
}

impl Chunk {
    /// Storage holds exactly the footprint's columns, each full height.
    pub closed spec fn wf(&self) -> bool {
        &&& self.columns@.len() == CHUNK_BOUNDS * CHUNK_BOUNDS
        &&& forall|i: int|
            0 <= i < CHUNK_BOUNDS * CHUNK_BOUNDS ==> (#[trigger] self.columns@[i]).is_some() == in_footprint(
                i / (CHUNK_BOUNDS as int) - CHUNK_RADIUS,
                i % (CHUNK_BOUNDS as int) - CHUNK_RADIUS,
            )
        &&& forall|i: int|
            0 <= i < CHUNK_BOUNDS * CHUNK_BOUNDS && (#[trigger] self.columns@[i]).is_some()
                ==> self.columns@[i].unwrap()@.len() == CHUNK_HEIGHT
    }

    /// The block at position `p` relative to the chunk's centre, for `p`
    /// inside the chunk.
    pub closed spec fn spec_block(&self, p: IPos) -> Block {
        self.columns@[storage_index(p.q as int, p.r as int)].unwrap()@[p.z as int]
    }

    /// Relative positions of all columns of a chunk, in the canonical order:
    /// the spiral of radius `CHUNK_RADIUS` around the centre. Every entry lies
    /// in the footprint, so inside the storage square.
    pub fn chunk_columns() -> (cols: Vec<ColumnId>)
        ensures
            cols@.len() == CHUNK_COLUMNS,
            cols@.len() == spiral_len(CHUNK_RADIUS as nat),
            forall|t: int| 0 <= t < CHUNK_COLUMNS ==> #[trigger] cols@[t]@ == spiral_cell(CHUNK_RADIUS as nat, t),
            forall|t: int| 0 <= t < CHUNK_COLUMNS ==> in_footprint(#[trigger] cols@[t].q as int, cols@[t].r as int),
            forall|t: int|
                0 <= t < CHUNK_COLUMNS ==> 0 <= #[trigger] cols@[t].q + CHUNK_RADIUS < CHUNK_BOUNDS
                    && 0 <= cols@[t].r + CHUNK_RADIUS < CHUNK_BOUNDS,
    {
        let cols = ColumnId::spiral(CHUNK_RADIUS as u32);
        proof {
            assert(spiral_len(CHUNK_RADIUS as nat) == CHUNK_COLUMNS);
            assert forall|t: int| 0 <= t < CHUNK_COLUMNS implies in_footprint(#[trigger] cols@[t].q as int, cols@[t].r as int) by {
                lemma_spiral_in_hexagon(CHUNK_RADIUS as nat, t);
                assert(cols@[t]@ == spiral_cell(CHUNK_RADIUS as nat, t));
            }
            assert forall|t: int|
                0 <= t < CHUNK_COLUMNS implies 0 <= #[trigger] cols@[t].q + CHUNK_RADIUS < CHUNK_BOUNDS
                    && 0 <= cols@[t].r + CHUNK_RADIUS < CHUNK_BOUNDS by {
                lemma_spiral_in_hexagon(CHUNK_RADIUS as nat, t);
                assert(cols@[t]@ == spiral_cell(CHUNK_RADIUS as nat, t));
                lemma_footprint_in_storage(cols@[t].q as int, cols@[t].r as int);
            }
        }
        cols
    }

    /// Fills the footprint from terrain samples. `levels` and `biomes` hold one
    /// sample per column of the storage square, at `sample_index(q, r)`: the
    /// column is stone below its level and air from it upwards, all of it in
    /// the column's biome. Columns are visited in the order of
    /// `chunk_columns`.
    pub fn from_terrain(levels: &Vec<u32>, biomes: &Vec<BiomeType>) -> (chunk: Chunk)
        requires
            levels@.len() == CHUNK_BOUNDS * CHUNK_BOUNDS,
            biomes@.len() == CHUNK_BOUNDS * CHUNK_BOUNDS,
        ensures
            chunk.wf(),
            forall|p: IPos|
                in_chunk(p) ==> #[trigger] chunk.spec_block(p) == terrain_block(
                    levels@[sample_index(p.q as int, p.r as int)] as int,
                    p.z as int,
                    biomes@[sample_index(p.q as int, p.r as int)],
                ),
    {
        let mut columns: Vec<Option<Vec<Block>>> = Vec::new();
        let mut i: usize = 0;
        while i < CHUNK_BOUNDS * CHUNK_BOUNDS
            invariant
                i <= CHUNK_BOUNDS * CHUNK_BOUNDS,
                columns@.len() == i,
                forall|k: int| 0 <= k < i ==> (#[trigger] columns@[k]).is_none(),
            decreases CHUNK_BOUNDS * CHUNK_BOUNDS - i,
        {
            columns.push(None);
            i = i + 1;
        }
        let cols = Chunk::chunk_columns();
        let mut t: usize = 0;
        while t < cols.len()
            invariant
                t <= cols@.len() == CHUNK_COLUMNS,
                levels@.len() == CHUNK_BOUNDS * CHUNK_BOUNDS,
                biomes@.len() == CHUNK_BOUNDS * CHUNK_BOUNDS,
                columns@.len() == CHUNK_BOUNDS * CHUNK_BOUNDS,
                forall|t: int| 0 <= t < CHUNK_COLUMNS ==> #[trigger] cols@[t]@ == spiral_cell(CHUNK_RADIUS as nat, t),
                forall|t: int| 0 <= t < CHUNK_COLUMNS ==> in_footprint(#[trigger] cols@[t].q as int, cols@[t].r as int),
                forall|k: int|
                    0 <= k < CHUNK_BOUNDS * CHUNK_BOUNDS && (#[trigger] columns@[k]).is_some() ==> {
                        let q = k / (CHUNK_BOUNDS as int) - CHUNK_RADIUS;
                        let r = k % (CHUNK_BOUNDS as int) - CHUNK_RADIUS;
                        &&& in_footprint(q, r)
                        &&& columns@[k].unwrap()@.len() == CHUNK_HEIGHT
                        &&& forall|z: int|
                            0 <= z < CHUNK_HEIGHT ==> #[trigger] columns@[k].unwrap()@[z] == terrain_block(
                                levels@[sample_index(q, r)] as int,
                                z,
                                biomes@[sample_index(q, r)],
                            )
                    },
                forall|u: int|
                    0 <= u < t ==> (#[trigger] columns@[storage_index(cols@[u].q as int, cols@[u].r as int)]).is_some(),
            decreases cols@.len() - t,
        {
            let c = cols[t];
            proof {
                lemma_footprint_in_storage(c.q as int, c.r as int);
            }
            let sq = (c.q + CHUNK_RADIUS as i32) as usize;
            let sr = (c.r + CHUNK_RADIUS as i32) as usize;
            let slot = sq * CHUNK_BOUNDS + sr;
            let sample = sr * CHUNK_BOUNDS + sq;
            let col = terrain_column(levels[sample], biomes[sample]);
            columns[slot] = Some(col);
            t = t + 1;
        }
        proof {
            assert forall|k: int| 0 <= k < CHUNK_BOUNDS * CHUNK_BOUNDS implies (#[trigger] columns@[k]).is_some() == in_footprint(
                k / (CHUNK_BOUNDS as int) - CHUNK_RADIUS,
                k % (CHUNK_BOUNDS as int) - CHUNK_RADIUS,
            ) by {
                let q = k / (CHUNK_BOUNDS as int) - CHUNK_RADIUS;
                let r = k % (CHUNK_BOUNDS as int) - CHUNK_RADIUS;
                if in_footprint(q, r) {
                    lemma_spiral_complete(CHUNK_RADIUS as nat, q, r);
                    lemma_slot_column(k);
                    let u = spiral_index(q, r);
                    assert(cols@[u]@ == (q, r));
                    assert(columns@[storage_index(cols@[u].q as int, cols@[u].r as int)].is_some());
                }
            }
        }
        let chunk = Chunk { columns };
        proof {
            assert forall|p: IPos| in_chunk(p) implies #[trigger] chunk.spec_block(p) == terrain_block(
                levels@[sample_index(p.q as int, p.r as int)] as int,
                p.z as int,
                biomes@[sample_index(p.q as int, p.r as int)],
            ) by {
                lemma_footprint_in_storage(p.q as int, p.r as int);
            }
        }
        chunk
    }

    /// A chunk whose every block is the default block (stone in grassland).
    pub fn new() -> (chunk: Chunk)
        ensures
            chunk.wf(),
            forall|p: IPos| in_chunk(p) ==> #[trigger] chunk.spec_block(p) == Block::spec_default(),
    {
        let levels: Vec<u32> = vec![CHUNK_HEIGHT as u32; CHUNK_BOUNDS * CHUNK_BOUNDS];
        let biomes: Vec<BiomeType> = vec![BiomeType::Grassland; CHUNK_BOUNDS * CHUNK_BOUNDS];
        Chunk::from_terrain(&levels, &biomes)
    }

    /// The block at `pos`, relative to the chunk's centre; `None` where `pos`
    /// is outside the footprint or below or above the chunk.
    pub fn block(&self, pos: &IPos) -> (b: Option<Block>)
        requires
            self.wf(),
        ensures
            b.is_some() == in_chunk(*pos),
            b.is_some() ==> b.unwrap() == self.spec_block(*pos),
    {
        if !footprint_contains(pos.q, pos.r) || pos.z < 0 || pos.z >= CHUNK_HEIGHT as i32 {
            return None;
        }
        proof {
            lemma_footprint_in_storage(pos.q as int, pos.r as int);
        }
        let slot = (pos.q + CHUNK_RADIUS as i32) as usize * CHUNK_BOUNDS + (pos.r + CHUNK_RADIUS as i32) as usize;
        match &self.columns[slot] {
            Some(col) => Some(col[pos.z as usize]),
            None => None,
        }
    }

    /// Replaces the block at `pos`, relative to the chunk's centre. Fails, and
    /// changes nothing, where `pos` is outside the footprint or below or above
    /// the chunk.
    pub fn set(&mut self, pos: &IPos, block: Block) -> (res: Result<(), OutOfChunk>)
        requires
            old(self).wf(),
        ensures
            final(self).wf(),
            res.is_ok() == in_chunk(*pos),
            res.is_err() ==> res == Err::<(), OutOfChunk>(OutOfChunk { pos: *pos }),
            forall|p: IPos|
                in_chunk(p) ==> #[trigger] final(self).spec_block(p) == if res.is_ok() && p == *pos {
                    block
                } else {
                    old(self).spec_block(p)
                },
    {
        if !footprint_contains(pos.q, pos.r) || pos.z < 0 || pos.z >= CHUNK_HEIGHT as i32 {
            return Err(OutOfChunk { pos: *pos });
        }
        proof {
            lemma_footprint_in_storage(pos.q as int, pos.r as int);
        }
        let slot = (pos.q + CHUNK_RADIUS as i32) as usize * CHUNK_BOUNDS + (pos.r + CHUNK_RADIUS as i32) as usize;
        let ghost before = self.columns@;
        let taken = self.columns[slot].take();
        match taken {
            Some(mut col) => {
                col[pos.z as usize] = block;
                self.columns[slot] = Some(col);
            },
            None => {},
        }
        proof {
            assert(self.columns@ == before.update(slot as int, self.columns@[slot as int]));
            assert forall|p: IPos| in_chunk(p) implies #[trigger] self.spec_block(p) == if p == *pos {
                block
            } else {
                old(self).spec_block(p)
            } by {
                lemma_footprint_in_storage(p.q as int, p.r as int);
                if storage_index(p.q as int, p.r as int) == slot {
                    assert(p.q == pos.q && p.r == pos.r);
                }
            }
        }
        Ok(())
    }
}

impl Default for Chunk {
    /// Every block stone in grassland, as `Chunk::new`.
    fn default() -> (chunk: Chunk)
        ensures
            chunk.wf(),
            forall|p: IPos| in_chunk(p) ==> #[trigger] chunk.spec_block(p) == Block::spec_default(),
    {
        Chunk::new()
    }
}

/// Storage slot of a relative column: both coordinates shifted by the chunk
/// radius, so that the footprint lands in `0 .. CHUNK_BOUNDS`.
pub fn column_to_storage_pos(relative_pos: &ColumnId) -> (c: ColumnId)
    requires
        in_footprint(relative_pos.q as int, relative_pos.r as int),
    ensures
        c.q == relative_pos.q + CHUNK_RADIUS,
        c.r == relative_pos.r + CHUNK_RADIUS,
        0 <= c.q < CHUNK_BOUNDS && 0 <= c.r < CHUNK_BOUNDS,
{
    proof {
        lemma_footprint_in_storage(relative_pos.q as int, relative_pos.r as int);
    }
    ColumnId { q: relative_pos.q + CHUNK_RADIUS as i32, r: relative_pos.r + CHUNK_RADIUS as i32 }
}

/// Position shifted by the chunk radius in `q` and `r`, `z` unchanged: the
/// storage position of a position relative to a chunk's centre.
pub fn storage_pos(relative_pos: &IPos) -> (p: IPos)
    requires
        relative_pos.q + CHUNK_RADIUS <= i32::MAX,
        relative_pos.r + CHUNK_RADIUS <= i32::MAX,
    ensures
        p.q == relative_pos.q + CHUNK_RADIUS,
        p.r == relative_pos.r + CHUNK_RADIUS,
        p.z == relative_pos.z,
{
    IPos { q: relative_pos.q + CHUNK_RADIUS as i32, r: relative_pos.r + CHUNK_RADIUS as i32, z: relative_pos.z }
}

/// Index of storage column `(q, r)` in a grid laid out row by row:
/// `r * CHUNK_BOUNDS + q`.
pub fn qr_to_index(position: &IPos) -> (i: usize)
    requires
        0 <= position.q < CHUNK_BOUNDS,
        0 <= position.r < CHUNK_BOUNDS,
    ensures
        i == position.r * CHUNK_BOUNDS + position.q,
        i < CHUNK_BOUNDS * CHUNK_BOUNDS,
{
    position.r as usize * CHUNK_BOUNDS + position.q as usize
}

/// The storage column at row-by-row index `index`, at height 0.
pub fn index_to_qr(index: usize) -> (p: IPos)
    requires
        index < CHUNK_BOUNDS * CHUNK_BOUNDS,
    ensures
        p.q == index % CHUNK_BOUNDS,
        p.r == index / CHUNK_BOUNDS,
        p.z == 0,
        p.r * CHUNK_BOUNDS + p.q == index,
{
    proof {
        vstd::arithmetic::div_mod::lemma_fundamental_div_mod(index as int, CHUNK_BOUNDS as int);
    }
    IPos { q: (index % CHUNK_BOUNDS) as i32, r: (index / CHUNK_BOUNDS) as i32, z: 0 }
}

/// Index of storage position `(q, r, z)` in a box laid out layer by layer,
/// each layer row by row.
pub fn qrz_to_index(position: IPos) -> (i: usize)
    requires
        0 <= position.q < CHUNK_BOUNDS,
        0 <= position.r < CHUNK_BOUNDS,
        0 <= position.z < CHUNK_HEIGHT,
    ensures
        i == (position.z * CHUNK_BOUNDS + position.r) * CHUNK_BOUNDS + position.q,
        i < CHUNK_HEIGHT * CHUNK_BOUNDS * CHUNK_BOUNDS,
{
    proof {
        assert((position.z * CHUNK_BOUNDS + position.r) * CHUNK_BOUNDS + position.q < CHUNK_HEIGHT * CHUNK_BOUNDS
            * CHUNK_BOUNDS) by (nonlinear_arith)
            requires
                0 <= position.q < CHUNK_BOUNDS,
                0 <= position.r < CHUNK_BOUNDS,
                0 <= position.z < CHUNK_HEIGHT;
    }
    ((position.z as usize * CHUNK_BOUNDS + position.r as usize) * CHUNK_BOUNDS + position.q as usize)
}

/// The storage position at layer-by-layer index `index`.
pub fn index_to_qrz(index: usize) -> (p: IPos)
    requires
        index < CHUNK_HEIGHT * CHUNK_BOUNDS * CHUNK_BOUNDS,
    ensures
        0 <= p.q < CHUNK_BOUNDS,
        0 <= p.r < CHUNK_BOUNDS,
        0 <= p.z < CHUNK_HEIGHT,
        (p.z * CHUNK_BOUNDS + p.r) * CHUNK_BOUNDS + p.q == index,
{
    let layer = CHUNK_BOUNDS * CHUNK_BOUNDS;
    let z = index / layer;
    let rest = index - z * layer;
    let r = rest / CHUNK_BOUNDS;
    let q = rest - r * CHUNK_BOUNDS;
    proof {
        vstd::arithmetic::div_mod::lemma_fundamental_div_mod(index as int, layer as int);
        vstd::arithmetic::div_mod::lemma_fundamental_div_mod(rest as int, CHUNK_BOUNDS as int);
        vstd::arithmetic::div_mod::lemma_mod_bound(index as int, layer as int);
        vstd::arithmetic::div_mod::lemma_mod_bound(rest as int, CHUNK_BOUNDS as int);
    }
    IPos { q: q as i32, r: r as i32, z: z as i32 }
}

} // verus!
