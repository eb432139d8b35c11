//! Columns (`q`, `r` without height) and the hexagonal ring and spiral walks
//! over them.
use vstd::prelude::*;
use vstd::arithmetic::div_mod::*;
use crate::chunk_id::ChunkId;
use crate::ipos::{IPos, dir_q, dir_r, hex_len, fits_i32};

verus! {

/// Largest radius accepted by the ring and spiral walks: the spiral of this
/// radius still has fewer than 2^32 columns.
pub const MAX_WALK_RADIUS: u32 = 0x7fff;

/// Column number `t` (`0 <= t < 6k`) of the ring of radius `k > 0`: the ring is
/// walked in six straight segments of `k` columns, segment `i` starting at
/// `k * direction(i)` and stepping in `direction(i + 2)`.
pub open spec fn ring_cell(k: int, t: int) -> (int, int) {
    let i = t / k;
    let j = t % k;
    (k * dir_q(i) + j * dir_q(i + 2), k * dir_r(i) + j * dir_r(i + 2))
}

/// Number of columns in a hexagon of radius `radius`: `3R^2 + 3R + 1`.
pub open spec fn spiral_len(radius: nat) -> nat {
    3 * radius * radius + 3 * radius + 1
}

/// Column number `t` of the spiral of radius `radius`: the centre, then the
/// rings of radius 1, 2, ..., `radius` in turn.
pub open spec fn spiral_cell(radius: nat, t: int) -> (int, int)
    decreases radius,
{
    if radius == 0 {
        (0, 0)
    } else if t < spiral_len((radius - 1) as nat) {
        spiral_cell((radius - 1) as nat, t)
    } else {
        ring_cell(radius as int, t - spiral_len((radius - 1) as nat))
    }
}

/// A column of the block grid: an axial `(q, r)` position without height.
#[derive(Clone, Copy, Debug, Default, PartialEq, Eq, Hash, Structural)]
pub struct ColumnId {
    pub q: i32,
    pub r: i32,
}

impl View for ColumnId {
    type V = (int, int);

    open spec fn view(&self) -> (int, int) {
        (self.q as int, self.r as int)
    }
}

/// Each coordinate of a ring walk position stays within twice the radius.
proof fn lemma_walk_step_bounds(k: int, j: int, i: int)
    requires
        0 <= k <= MAX_WALK_RADIUS,
        0 <= j < k,
        0 <= i < 6,
    ensures
        fits_i32(k * dir_q(i) + j * dir_q(i + 2) + dir_q(i + 2)),
        fits_i32(k * dir_r(i) + j * dir_r(i + 2) + dir_r(i + 2)),
        k * dir_q(i) + j * dir_q(i + 2) + dir_q(i + 2) == k * dir_q(i) + (j + 1) * dir_q(i + 2),
        k * dir_r(i) + j * dir_r(i + 2) + dir_r(i + 2) == k * dir_r(i) + (j + 1) * dir_r(i + 2),
{
    assert(-1 <= dir_q(i) <= 1 && -1 <= dir_r(i) <= 1);
    assert(-1 <= dir_q(i + 2) <= 1 && -1 <= dir_r(i + 2) <= 1);
    assert(-k <= k * dir_q(i) <= k) by (nonlinear_arith)
        requires -1 <= dir_q(i) <= 1, 0 <= k;
    assert(-k <= k * dir_r(i) <= k) by (nonlinear_arith)
        requires -1 <= dir_r(i) <= 1, 0 <= k;
    assert(-k <= (j + 1) * dir_q(i + 2) <= k) by (nonlinear_arith)
        requires -1 <= dir_q(i + 2) <= 1, 0 <= j < k;
    assert(-k <= (j + 1) * dir_r(i + 2) <= k) by (nonlinear_arith)
        requires -1 <= dir_r(i + 2) <= 1, 0 <= j < k;
    assert(j * dir_q(i + 2) + dir_q(i + 2) == (j + 1) * dir_q(i + 2)) by (nonlinear_arith);
    assert(j * dir_r(i + 2) + dir_r(i + 2) == (j + 1) * dir_r(i + 2)) by (nonlinear_arith);
}

impl ColumnId {
    pub fn new(q: i32, r: i32) -> (c: ColumnId)
        ensures
            c.q == q && c.r == r,
    {
        ColumnId { q, r }
    }

    pub fn splat(value: i32) -> (c: ColumnId)
        ensures
            c.q == value && c.r == value,
    {
        ColumnId { q: value, r: value }
    }

    pub fn q(&self) -> (v: i32)
        ensures
            v == self.q,
    {
        self.q
    }

    pub fn r(&self) -> (v: i32)
        ensures
            v == self.r,
    {
        self.r
    }

    /// The third axial coordinate, `-q - r`.
    pub fn s(&self) -> (v: i64)
        ensures
            v == -self.q - self.r,
    {
        -(self.q as i64) - (self.r as i64)
    }

    /// The block position of this column at height `z`.
    pub fn as_ipos(&self, z: i32) -> (p: IPos)
        ensures
            p.q == self.q && p.r == self.r && p.z == z,
    {
        IPos::new(self.q, self.r, z)
    }

    /// The chunk coordinate with this column's `q` and `r`, in layer `z`.
    pub fn as_chunk_id(&self, z: i32) -> (c: ChunkId)
        ensures
            c.q == self.q && c.r == self.r && c.z == z,
    {
        ChunkId::new(self.q, self.r, z)
    }

    /// Unit offset towards the neighbour with index `neighbour_index mod 6`.
    pub fn direction(neighbour_index: u32) -> (c: ColumnId)
        ensures
            c@ == (dir_q(neighbour_index as int), dir_r(neighbour_index as int)),
    {
        let d = IPos::direction(neighbour_index);
        ColumnId { q: d.q, r: d.r }
    }

    /// The adjacent column in direction `neighbour_index mod 6`.
    pub fn neighbour(&self, neighbour_index: u32) -> (c: ColumnId)
        requires
            fits_i32(self.q + dir_q(neighbour_index as int)),
            fits_i32(self.r + dir_r(neighbour_index as int)),
        ensures
            c@ == (self.q + dir_q(neighbour_index as int), self.r + dir_r(neighbour_index as int)),
    {
        let d = ColumnId::direction(neighbour_index);
        ColumnId { q: self.q + d.q, r: self.r + d.r }
    }

    /// Both coordinates multiplied by `factor`.
    pub fn scale(&self, factor: i32) -> (c: ColumnId)
        requires
            fits_i32(self.q * factor),
            fits_i32(self.r * factor),
        ensures
            c@ == (self.q * factor, self.r * factor),
    {
        ColumnId { q: self.q * factor, r: self.r * factor }
    }

    /// All columns at hex distance exactly `radius` from the origin, walked
    /// counter-clockwise starting at `radius * direction(0)`.
    pub fn ring(radius: u32) -> (res: Vec<ColumnId>)
        requires
            radius <= MAX_WALK_RADIUS,
        ensures
            res@.len() == 6 * radius,
            forall|t: int| 0 <= t < 6 * radius ==> #[trigger] res@[t]@ == ring_cell(radius as int, t),
    {
        let mut results: Vec<ColumnId> = Vec::new();
        let k = radius as i32;
        let mut i: u32 = 0;
        while i < 6
            invariant
                0 <= i <= 6,
                k == radius,
                radius <= MAX_WALK_RADIUS,
                results@.len() == i * radius,
                forall|t: int| 0 <= t < i * radius ==> #[trigger] results@[t]@ == ring_cell(radius as int, t),
            decreases 6 - i,
        {
            let mut pos = ColumnId::direction(i).scale(k);
            let mut j: u32 = 0;
            while j < radius
                invariant
                    0 <= i < 6,
                    0 <= j <= radius,
                    k == radius,
                    radius <= MAX_WALK_RADIUS,
                    results@.len() == i * radius + j,
                    j < radius ==> pos@ == (k * dir_q(i as int) + j * dir_q(i + 2), k * dir_r(i as int) + j * dir_r(i + 2)),
                    forall|t: int| 0 <= t < i * radius + j ==> #[trigger] results@[t]@ == ring_cell(radius as int, t),
                decreases radius - j,
            {
                proof {
                    let t = i * radius + j;
                    assert(t / (radius as int) == i && t % (radius as int) == j) by {
                        lemma_fundamental_div_mod_converse(t as int, radius as int, i as int, j as int);
                    }
                    assert(0 <= i * radius <= 5 * MAX_WALK_RADIUS) by (nonlinear_arith)
                        requires 0 <= i < 6, radius <= MAX_WALK_RADIUS;
                }
                results.push(pos);
                if j + 1 < radius {
                    proof {
                        lemma_walk_step_bounds(k as int, j as int, i as int);
                    }
                    pos = pos.neighbour(i + 2);
                }
                j = j + 1;
            }
            proof {
                assert((i + 1) * radius == i * radius + radius) by (nonlinear_arith);
            }
            i = i + 1;
        }
        results
    }

    /// All columns at hex distance at most `radius` from the origin: the centre,
    /// then the rings of radius 1, 2, ..., `radius` in turn.
    pub fn spiral(radius: u32) -> (res: Vec<ColumnId>)
        requires
            radius <= MAX_WALK_RADIUS,
        ensures
            res@.len() == spiral_len(radius as nat),
            forall|t: int| 0 <= t < spiral_len(radius as nat) ==> #[trigger] res@[t]@ == spiral_cell(radius as nat, t),
    {
        let mut results: Vec<ColumnId> = vec![ColumnId::new(0, 0)];
        let mut m: u32 = 0;
        while m < radius
            invariant
                m <= radius <= MAX_WALK_RADIUS,
                results@.len() == spiral_len(m as nat),
                forall|t: int| 0 <= t < spiral_len(m as nat) ==> #[trigger] results@[t]@ == spiral_cell(m as nat, t),
            decreases radius - m,
        {
            let mut ring = ColumnId::ring(m + 1);
            let ghost before = results@;
            proof {
                assert(spiral_len((m + 1) as nat) == spiral_len(m as nat) + 6 * (m + 1)) by (nonlinear_arith);
            }
            results.append(&mut ring);
            proof {
                assert forall|t: int| 0 <= t < spiral_len((m + 1) as nat) implies #[trigger] results@[t]@ == spiral_cell((m + 1) as nat, t) by {
                    if t < spiral_len(m as nat) {
                        assert(results@[t] == before[t]);
                    }
                }
            }
            m = m + 1;
        }
        results
    }
}

} // verus!

verus! {

/// Ring column `i * k + j` is `j` steps into segment `i`.
proof fn lemma_ring_cell_split(k: int, i: int, j: int)
    requires
        0 < k,
        0 <= i < 6,
        0 <= j < k,
    ensures
        ring_cell(k, i * k + j) == (k * dir_q(i) + j * dir_q(i + 2), k * dir_r(i) + j * dir_r(i + 2)),
{
    lemma_fundamental_div_mod_converse(i * k + j, k, i, j);
}

/// Every column of the ring of radius `k` lies at hex distance `k`.
proof fn lemma_ring_cell_len(k: int, t: int)
    requires
        0 < k,
        0 <= t < 6 * k,
    ensures
        hex_len(ring_cell(k, t).0, ring_cell(k, t).1) == k,
{
    let i = t / k;
    let j = t % k;
    lemma_fundamental_div_mod(t, k);
    lemma_mod_pos_bound(t, k);
    assert(0 <= i < 6) by (nonlinear_arith)
        requires t == k * i + j, 0 <= j < k, 0 <= t < 6 * k, 0 < k;
    assert(i * k + j == t) by (nonlinear_arith)
        requires t == k * i + j;
    lemma_ring_cell_split(k, i, j);
    lemma_dir_values(i);
    let q = k * dir_q(i) + j * dir_q(i + 2);
    let r = k * dir_r(i) + j * dir_r(i + 2);
    assert(hex_len(q, r) == k) by (nonlinear_arith)
        requires
            q == k * dir_q(i) + j * dir_q(i + 2),
            r == k * dir_r(i) + j * dir_r(i + 2),
            0 <= j < k,
            dir_q(i) == (if i == 0 { 1int } else if i == 1 { 0 } else if i == 2 { -1 } else if i == 3 { -1 } else if i == 4 { 0 } else { 1 }),
            dir_r(i) == (if i == 0 { 0int } else if i == 1 { 1 } else if i == 2 { 1 } else if i == 3 { 0 } else if i == 4 { -1 } else { -1 }),
            dir_q(i + 2) == (if i == 0 { -1int } else if i == 1 { -1 } else if i == 2 { 0 } else if i == 3 { 1 } else if i == 4 { 1 } else { 0 }),
            dir_r(i + 2) == (if i == 0 { 1int } else if i == 1 { 0 } else if i == 2 { -1 } else if i == 3 { -1 } else if i == 4 { 0 } else { 1 }),
            0 <= i < 6;
}

/// Position of column `(q, r)` in the walk of the ring of radius `k`, for a
/// column at hex distance `k`.
pub open spec fn ring_index(k: int, q: int, r: int) -> int {
    let s = -q - r;
    if s == -k && 0 <= r < k {
        r
    } else if r == k && -k < q <= 0 {
        k - q
    } else if q == -k && 0 < r <= k {
        2 * k + (k - r)
    } else if s == k && -k < r <= 0 {
        3 * k - r
    } else if r == -k && 0 <= q < k {
        4 * k + q
    } else {
        5 * k + (r + k)
    }
}

/// The direction tables written out for `i` and `i + 2`.
proof fn lemma_dir_values(i: int)
    requires
        0 <= i < 6,
    ensures
        dir_q(i) == (if i == 0 { 1int } else if i == 1 { 0 } else if i == 2 { -1 } else if i == 3 { -1 } else if i == 4 { 0 } else { 1 }),
        dir_r(i) == (if i == 0 { 0int } else if i == 1 { 1 } else if i == 2 { 1 } else if i == 3 { 0 } else if i == 4 { -1 } else { -1 }),
        dir_q(i + 2) == (if i == 0 { -1int } else if i == 1 { -1 } else if i == 2 { 0 } else if i == 3 { 1 } else if i == 4 { 1 } else { 0 }),
        dir_r(i + 2) == (if i == 0 { 1int } else if i == 1 { 0 } else if i == 2 { -1 } else if i == 3 { -1 } else if i == 4 { 0 } else { 1 }),
{
}

/// The ring walk of radius `k` reaches every column at hex distance `k`.
proof fn lemma_ring_cell_onto(k: int, q: int, r: int)
    requires
        0 < k,
        hex_len(q, r) == k,
    ensures
        0 <= ring_index(k, q, r) < 6 * k,
        ring_cell(k, ring_index(k, q, r)) == (q, r),
{
    let s = -q - r;
    let t = ring_index(k, q, r);
    let (i, j) = if s == -k && 0 <= r < k {
        (0int, r)
    } else if r == k && -k < q <= 0 {
        (1int, -q)
    } else if q == -k && 0 < r <= k {
        (2int, k - r)
    } else if s == k && -k < r <= 0 {
        (3int, -r)
    } else if r == -k && 0 <= q < k {
        (4int, q)
    } else {
        (5int, r + k)
    };
    assert(t == i * k + j) by (nonlinear_arith)
        requires
            i == 0 ==> t == r && j == r,
            i == 1 ==> t == k - q && j == -q,
            i == 2 ==> t == 2 * k + (k - r) && j == k - r,
            i == 3 ==> t == 3 * k - r && j == -r,
            i == 4 ==> t == 4 * k + q && j == q,
            i == 5 ==> t == 5 * k + (r + k) && j == r + k,
            0 <= i < 6;
    lemma_ring_cell_split(k, i, j);
    lemma_dir_values(i);
    assert(0 <= i * k + j < 6 * k) by (nonlinear_arith)
        requires 0 <= i < 6, 0 <= j < k;
    assert(k * dir_q(i) + j * dir_q(i + 2) == q && k * dir_r(i) + j * dir_r(i + 2) == r) by (nonlinear_arith)
        requires
            i == 0 ==> s == -k && j == r,
            i == 1 ==> r == k && j == -q,
            i == 2 ==> q == -k && j == k - r,
            i == 3 ==> s == k && j == -r,
            i == 4 ==> r == -k && j == q,
            i == 5 ==> q == k && j == r + k,
            s == -q - r,
            dir_q(i) == (if i == 0 { 1int } else if i == 1 { 0 } else if i == 2 { -1 } else if i == 3 { -1 } else if i == 4 { 0 } else { 1 }),
            dir_r(i) == (if i == 0 { 0int } else if i == 1 { 1 } else if i == 2 { 1 } else if i == 3 { 0 } else if i == 4 { -1 } else { -1 }),
            dir_q(i + 2) == (if i == 0 { -1int } else if i == 1 { -1 } else if i == 2 { 0 } else if i == 3 { 1 } else if i == 4 { 1 } else { 0 }),
            dir_r(i + 2) == (if i == 0 { 1int } else if i == 1 { 0 } else if i == 2 { -1 } else if i == 3 { -1 } else if i == 4 { 0 } else { 1 }),
            0 <= i < 6;
}

/// Walking the ring and looking the column up again gives back its position:
/// the ring walk visits no column twice.
proof fn lemma_ring_index_of_cell(k: int, t: int)
    requires
        0 < k,
        0 <= t < 6 * k,
    ensures
        ring_index(k, ring_cell(k, t).0, ring_cell(k, t).1) == t,
{
    let i = t / k;
    let j = t % k;
    lemma_fundamental_div_mod(t, k);
    lemma_mod_pos_bound(t, k);
    assert(0 <= i < 6) by (nonlinear_arith)
        requires t == k * i + j, 0 <= j < k, 0 <= t < 6 * k, 0 < k;
    assert(i * k + j == t) by (nonlinear_arith)
        requires t == k * i + j;
    lemma_ring_cell_split(k, i, j);
    lemma_dir_values(i);
    let q = k * dir_q(i) + j * dir_q(i + 2);
    let r = k * dir_r(i) + j * dir_r(i + 2);
    assert(ring_index(k, q, r) == t) by (nonlinear_arith)
        requires
            q == k * dir_q(i) + j * dir_q(i + 2),
            r == k * dir_r(i) + j * dir_r(i + 2),
            t == i * k + j,
            0 <= j < k,
            dir_q(i) == (if i == 0 { 1int } else if i == 1 { 0 } else if i == 2 { -1 } else if i == 3 { -1 } else if i == 4 { 0 } else { 1 }),
            dir_r(i) == (if i == 0 { 0int } else if i == 1 { 1 } else if i == 2 { 1 } else if i == 3 { 0 } else if i == 4 { -1 } else { -1 }),
            dir_q(i + 2) == (if i == 0 { -1int } else if i == 1 { -1 } else if i == 2 { 0 } else if i == 3 { 1 } else if i == 4 { 1 } else { 0 }),
            dir_r(i + 2) == (if i == 0 { 1int } else if i == 1 { 0 } else if i == 2 { -1 } else if i == 3 { -1 } else if i == 4 { 0 } else { 1 }),
            0 <= i < 6;
}

/// The spiral of radius `m` is that of radius `m - 1` followed by a ring of
/// `6m` columns.
proof fn lemma_spiral_len_step(m: nat)
    requires
        m > 0,
    ensures
        spiral_len(m) == spiral_len((m - 1) as nat) + 6 * m,
{
    let a = m as int;
    assert(3 * a * a + 3 * a + 1 == 3 * (a - 1) * (a - 1) + 3 * (a - 1) + 1 + 6 * a) by (nonlinear_arith);
}

/// Every column of the spiral of radius `radius` lies within hex distance
/// `radius` of the origin.
pub proof fn lemma_spiral_in_hexagon(radius: nat, t: int)
    requires
        0 <= t < spiral_len(radius),
    ensures
        hex_len(spiral_cell(radius, t).0, spiral_cell(radius, t).1) <= radius,
    decreases radius,
{
    if radius > 0 {
        if t < spiral_len((radius - 1) as nat) {
            lemma_spiral_in_hexagon((radius - 1) as nat, t);
        } else {
            lemma_spiral_len_step(radius);
            lemma_ring_cell_len(radius as int, t - spiral_len((radius - 1) as nat));
        }
    }
}

/// Position of column `(q, r)` in the spiral walk, for a column within hex
/// distance `radius` of the origin.
pub open spec fn spiral_index(q: int, r: int) -> int {
    let k = hex_len(q, r);
    if k == 0 { 0 } else { spiral_len((k - 1) as nat) + ring_index(k, q, r) }
}

/// The spiral of radius `radius` reaches every column within hex distance
/// `radius` of the origin, at position `spiral_index(q, r)`.
pub proof fn lemma_spiral_complete(radius: nat, q: int, r: int)
    requires
        hex_len(q, r) <= radius,
    ensures
        0 <= spiral_index(q, r) < spiral_len(radius),
        spiral_cell(radius, spiral_index(q, r)) == (q, r),
    decreases radius,
{
    let k = hex_len(q, r);
    if radius > 0 {
        lemma_spiral_len_step(radius);
        if k < radius {
            lemma_spiral_complete((radius - 1) as nat, q, r);
        } else {
            lemma_ring_cell_onto(k, q, r);
        }
    } else {
        assert(q == 0 && r == 0);
    }
}

/// The spiral of radius `radius` visits no column twice: the column at
/// position `t` is looked up at position `t` again.
pub proof fn lemma_spiral_distinct(radius: nat, t: int)
    requires
        0 <= t < spiral_len(radius),
    ensures
        spiral_index(spiral_cell(radius, t).0, spiral_cell(radius, t).1) == t,
    decreases radius,
{
    if radius > 0 {
        if t < spiral_len((radius - 1) as nat) {
            lemma_spiral_distinct((radius - 1) as nat, t);
        } else {
            lemma_spiral_len_step(radius);
            lemma_ring_cell_len(radius as int, t - spiral_len((radius - 1) as nat));
            lemma_ring_index_of_cell(radius as int, t - spiral_len((radius - 1) as nat));
            let c = spiral_cell(radius, t);
            assert(c == ring_cell(radius as int, t - spiral_len((radius - 1) as nat)));
            assert(hex_len(c.0, c.1) == radius);
        }
    } else {
        assert(3 * radius * radius + 3 * radius + 1 == 1) by (nonlinear_arith)
            requires radius == 0;
        assert(t == 0);
        assert(hex_len(0, 0) == 0);
    }
}

} // verus!
