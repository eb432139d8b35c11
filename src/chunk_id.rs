//! Chunk coordinates: a pointy-topped axial lattice of hexagonal chunks laid
//! over the flat-topped block grid.
use vstd::prelude::*;
use crate::ipos::{IPos, hex_len, fits_i32, dir_q, dir_r, cmp_qrz, compare_qrz};

verus! {

/// Radius, in blocks, of a chunk's hexagonal footprint.
pub const CHUNK_RADIUS: usize = 8;
/// Number of blocks stacked in each column of a chunk.
pub const CHUNK_HEIGHT: usize = 32;
/// Width of the square storage grid that holds a chunk's footprint.
pub const CHUNK_BOUNDS: usize = 17;

/// Block `q` of the centre of chunk `(a, b)`: `(2R + 1) a + R b`.
pub open spec fn center_q(a: int, b: int) -> int {
    (2 * CHUNK_RADIUS + 1) * a + CHUNK_RADIUS * b
}

/// Block `r` of the centre of chunk `(a, b)`: `-R a + (R + 1) b`.
pub open spec fn center_r(a: int, b: int) -> int {
    -(CHUNK_RADIUS as int) * a + (CHUNK_RADIUS + 1) * b
}

/// The chunk layer that holds height `z`.
pub open spec fn layer_of(z: int) -> int {
    z / (CHUNK_HEIGHT as int)
}

/// A chunk coordinate in the pointy-topped chunk lattice, plus its layer.
#[derive(Clone, Copy, Debug, Default, PartialEq, Eq, Ord, Hash, Structural)]
pub struct ChunkId {
    pub q: i32,
    pub r: i32,
    pub z: i32,
}

impl ChunkId {
    /// Whether block `p` lies in this chunk: its column is within hex distance
    /// `CHUNK_RADIUS` of the chunk's centre column and its height in this
    /// chunk's layer.
    pub open spec fn holds(self, p: IPos) -> bool {
        &&& hex_len(p.q - center_q(self.q as int, self.r as int), p.r - center_r(self.q as int, self.r as int))
            <= CHUNK_RADIUS
        &&& self.z == layer_of(p.z as int)
    }

    pub fn new(q: i32, r: i32, z: i32) -> (c: ChunkId)
        ensures
            c.q == q && c.r == r && c.z == z,
    {
        ChunkId { q, r, z }
    }

    pub fn splat(value: i32) -> (c: ChunkId)
        ensures
            c.q == value && c.r == value && c.z == value,
    {
        ChunkId { q: value, r: value, z: value }
    }

    /// This coordinate moved by the given offsets.
    pub fn delta(&self, delta_q: i32, delta_r: i32, delta_z: i32) -> (c: ChunkId)
        requires
            fits_i32(self.q + delta_q),
            fits_i32(self.r + delta_r),
            fits_i32(self.z + delta_z),
        ensures
            c.q == self.q + delta_q,
            c.r == self.r + delta_r,
            c.z == self.z + delta_z,
    {
        ChunkId { q: self.q + delta_q, r: self.r + delta_r, z: self.z + delta_z }
    }

    pub fn q(&self) -> (v: i32)
        ensures
            v == self.q,
    {
        self.q
    }

    pub fn r(&self) -> (v: i32)
        ensures
            v == self.r,
    {
        self.r
    }

    /// The third axial coordinate, `-q - r`.
    pub fn s(&self) -> (v: i64)
        ensures
            v == -self.q - self.r,
    {
        -(self.q as i64) - (self.r as i64)
    }

    pub fn z(&self) -> (v: i32)
        ensures
            v == self.z,
    {
        self.z
    }

    /// The `(q, r)` part of this coordinate.
    pub fn qr(&self) -> (v: (i32, i32))
        ensures
            v == (self.q, self.r),
    {
        (self.q, self.r)
    }

    /// Hex distance between two chunk coordinates in the chunk lattice:
    /// `max(|dq|, |dr|, |ds|)`. Layers are not taken into account.
    pub fn distance(a: &ChunkId, b: &ChunkId) -> (d: i64)
        ensures
            d == hex_len(a.q - b.q, a.r - b.r),
    {
        IPos::distance(&IPos::new(a.q, a.r, 0), &IPos::new(b.q, b.r, 0))
    }

    /// The chunk next to this one, in direction `neighbour_index mod 6` of the
    /// chunk lattice, in the same layer.
    pub fn neighbour(&self, neighbour_index: u32) -> (c: ChunkId)
        requires
            fits_i32(self.q + dir_q(neighbour_index as int)),
            fits_i32(self.r + dir_r(neighbour_index as int)),
        ensures
            c.q == self.q + dir_q(neighbour_index as int),
            c.r == self.r + dir_r(neighbour_index as int),
            c.z == self.z,
    {
        let d = IPos::direction(neighbour_index);
        ChunkId { q: self.q + d.q, r: self.r + d.r, z: self.z }
    }

    /// Block position of this chunk's centre: the centre column at the
    /// chunk's lowest level.
    pub fn center_pos(&self) -> (p: IPos)
        requires
            fits_i32(center_q(self.q as int, self.r as int)),
            fits_i32(center_r(self.q as int, self.r as int)),
            fits_i32(self.z * CHUNK_HEIGHT),
        ensures
            p.q == center_q(self.q as int, self.r as int),
            p.r == center_r(self.q as int, self.r as int),
            p.z == self.z * CHUNK_HEIGHT,
    {
        let radius = CHUNK_RADIUS as i64;
        let height = CHUNK_HEIGHT as i64;
        let q = self.q as i64;
        let r = self.r as i64;
        IPos::new(
            ((radius * 2 + 1) * q + radius * r) as i32,
            ((radius + 1) * r - radius * q) as i32,
            (self.z as i64 * height) as i32,
        )
    }

    /// The chunk that holds block `block_pos`. Solving `block = centre(a, b)`
    /// over the reals gives `a = ((R + 1) q - R r) / N` and
    /// `b = (R q + (2R + 1) r) / N`, with `N = 3R^2 + 3R + 1 = 217`; the chunk
    /// that holds the block is one of the four lattice points at or just above
    /// the rounded-down solution.
    pub fn from_block_pos(block_pos: &IPos) -> (c: ChunkId)
        ensures
            c.holds(*block_pos),
    {
        let q = block_pos.q as i64;
        let r = block_pos.r as i64;
        let n: i64 = 217;
        let a0 = floor_div(9 * q - 8 * r, n);
        let b0 = floor_div(8 * q + 17 * r, n);
        let z = floor_div(block_pos.z as i64, CHUNK_HEIGHT as i64);
        proof {
            lemma_chunk_candidates(q as int, r as int);
        }
        let (a, b) = if center_within(q, r, a0, b0) {
            (a0, b0)
        } else if center_within(q, r, a0 + 1, b0) {
            (a0 + 1, b0)
        } else if center_within(q, r, a0, b0 + 1) {
            (a0, b0 + 1)
        } else {
            (a0 + 1, b0 + 1)
        };
        ChunkId { q: a as i32, r: b as i32, z: z as i32 }
    }
}

/// `x / d` rounded towards negative infinity.
fn floor_div(x: i64, d: i64) -> (v: i64)
    requires
        d > 0,
        x > i64::MIN,
    ensures
        v == x / d,
{
    if x >= 0 {
        x / d
    } else {
        let y = (-x - 1) / d;
        proof {
            vstd::arithmetic::div_mod::lemma_fundamental_div_mod(-x - 1, d as int);
            vstd::arithmetic::div_mod::lemma_mod_bound(-x - 1, d as int);
            let m = (-x - 1) % (d as int);
            assert(x == (-y - 1) * d + (d - 1 - m)) by (nonlinear_arith)
                requires -x - 1 == d * y + m;
            vstd::arithmetic::div_mod::lemma_fundamental_div_mod_converse(x as int, d as int, -y - 1, d - 1 - m);
        }
        -y - 1
    }
}

/// Whether block column `(q, r)` lies within the footprint of chunk `(a, b)`.
fn center_within(q: i64, r: i64, a: i64, b: i64) -> (v: bool)
    requires
        -0x1_0000_0000 <= q <= 0x1_0000_0000,
        -0x1_0000_0000 <= r <= 0x1_0000_0000,
        -0x1_0000_0000 <= a <= 0x1_0000_0000,
        -0x1_0000_0000 <= b <= 0x1_0000_0000,
    ensures
        v == (hex_len(q - center_q(a as int, b as int), r - center_r(a as int, b as int)) <= CHUNK_RADIUS),
{
    let dq = q - (17 * a + 8 * b);
    let dr = r - (9 * b - 8 * a);
    let ds = -dq - dr;
    let radius = CHUNK_RADIUS as i64;
    -radius <= dq && dq <= radius && -radius <= dr && dr <= radius && -radius <= ds && ds <= radius
}

/// With `a0` and `b0` the rounded-down lattice coordinates of column `(q, r)`,
/// the chunk holding that column is one of `(a0, b0)`, `(a0 + 1, b0)`,
/// `(a0, b0 + 1)` and `(a0 + 1, b0 + 1)`.
proof fn lemma_chunk_candidates(q: int, r: int)
    ensures
        ({
            let a0 = (9 * q - 8 * r) / 217;
            let b0 = (8 * q + 17 * r) / 217;
            ||| hex_len(q - center_q(a0, b0), r - center_r(a0, b0)) <= CHUNK_RADIUS
            ||| hex_len(q - center_q(a0 + 1, b0), r - center_r(a0 + 1, b0)) <= CHUNK_RADIUS
            ||| hex_len(q - center_q(a0, b0 + 1), r - center_r(a0, b0 + 1)) <= CHUNK_RADIUS
            ||| hex_len(q - center_q(a0 + 1, b0 + 1), r - center_r(a0 + 1, b0 + 1)) <= CHUNK_RADIUS
        }),
{
    let a0 = (9 * q - 8 * r) / 217;
    let b0 = (8 * q + 17 * r) / 217;
    vstd::arithmetic::div_mod::lemma_fundamental_div_mod(9 * q - 8 * r, 217);
    vstd::arithmetic::div_mod::lemma_fundamental_div_mod(8 * q + 17 * r, 217);
    vstd::arithmetic::div_mod::lemma_mod_bound(9 * q - 8 * r, 217);
    vstd::arithmetic::div_mod::lemma_mod_bound(8 * q + 17 * r, 217);
    let dq = q - center_q(a0, b0);
    let dr = r - center_r(a0, b0);
    assert(dq == q - 17 * a0 - 8 * b0 && dr == r + 8 * a0 - 9 * b0);
    assert(9 * dq - 8 * dr == (9 * q - 8 * r) - 217 * a0);
    assert(8 * dq + 17 * dr == (8 * q + 17 * r) - 217 * b0);
    assert(0 <= 9 * dq - 8 * dr < 217 && 0 <= 8 * dq + 17 * dr < 217);
    lemma_parallelogram_covered(dq, dr);
}

/// Every column of the fundamental parallelogram of the chunk lattice lies in
/// the footprint of one of its four corners.
proof fn lemma_parallelogram_covered(dq: int, dr: int)
    requires
        0 <= 9 * dq - 8 * dr < 217,
        0 <= 8 * dq + 17 * dr < 217,
    ensures
        hex_len(dq, dr) <= 8 || hex_len(dq - 17, dr + 8) <= 8 || hex_len(dq - 8, dr - 9) <= 8
            || hex_len(dq - 25, dr - 1) <= 8,
{
}

} // verus!

verus! {

/// Distinct chunk centres are at least `2R + 1` apart.
proof fn lemma_lattice_spacing(x: int, y: int)
    requires
        x != 0 || y != 0,
    ensures
        hex_len(17 * x + 8 * y, 9 * y - 8 * x) >= 17,
{
}

/// Chunk footprints do not overlap: a block lies in exactly one chunk, the one
/// that `ChunkId::from_block_pos` returns.
pub proof fn lemma_chunk_unique(c1: ChunkId, c2: ChunkId, p: IPos)
    requires
        c1.holds(p),
        c2.holds(p),
    ensures
        c1 == c2,
{
    let x = c1.q - c2.q;
    let y = c1.r - c2.r;
    assert(center_q(c1.q as int, c1.r as int) == 17 * c1.q + 8 * c1.r);
    assert(center_q(c2.q as int, c2.r as int) == 17 * c2.q + 8 * c2.r);
    assert(center_r(c1.q as int, c1.r as int) == 9 * c1.r - 8 * c1.q);
    assert(center_r(c2.q as int, c2.r as int) == 9 * c2.r - 8 * c2.q);
    if x != 0 || y != 0 {
        lemma_lattice_spacing(x, y);
    }
}

} // verus!

verus! {

/// Order by `q` first, then `r`, then `z`, so that chunks can be written out
/// in a fixed order.
impl PartialOrd for ChunkId {
    fn partial_cmp(&self, other: &ChunkId) -> Option<core::cmp::Ordering> {
        Some(compare_qrz((self.q, self.r, self.z), (other.q, other.r, other.z)))
    }
}

impl vstd::std_specs::cmp::PartialOrdSpecImpl for ChunkId {
    open spec fn obeys_partial_cmp_spec() -> bool {
        true
    }

    open spec fn partial_cmp_spec(&self, other: &ChunkId) -> Option<core::cmp::Ordering> {
        Some(cmp_qrz((self.q as int, self.r as int, self.z as int), (other.q as int, other.r as int, other.z as int)))
    }
}

} // verus!
