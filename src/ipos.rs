//! Integral positions in the flat-topped axial block grid.
use vstd::prelude::*;

verus! {

/// Absolute value of an integer.
pub open spec fn abs(x: int) -> int {
    if x < 0 { -x } else { x }
}

/// Largest of three integers.
pub open spec fn max3(a: int, b: int, c: int) -> int {
    if a >= b && a >= c { a } else if b >= c { b } else { c }
}

/// Hex distance of an axial offset `(dq, dr)` from the origin: the largest of
/// `|dq|`, `|dr|` and `|ds|`, where `ds = -dq - dr`.
pub open spec fn hex_len(dq: int, dr: int) -> int {
    max3(abs(dq), abs(dr), abs(-dq - dr))
}

/// Offset `(dq, dr)` of the neighbour in direction `i mod 6`, counter-clockwise
/// starting at the +q axis.
pub open spec fn dir_q(i: int) -> int {
    let k = i % 6;
    if k == 0 { 1 } else if k == 1 { 0 } else if k == 2 { -1 } else if k == 3 { -1 } else if k == 4 { 0 } else { 1 }
}

pub open spec fn dir_r(i: int) -> int {
    let k = i % 6;
    if k == 0 { 0 } else if k == 1 { 1 } else if k == 2 { 1 } else if k == 3 { 0 } else if k == 4 { -1 } else { -1 }
}

pub open spec fn fits_i32(x: int) -> bool {
    i32::MIN <= x <= i32::MAX
}

/// A block position in the flat-topped axial system: `q` and `r` locate the
/// hexagonal column, `z` is the height. The third axial coordinate is
/// `s = -q - r` and is never stored.
#[derive(Clone, Copy, Debug, Default, PartialEq, Eq, Ord, Hash, Structural)]
pub struct IPos {
    pub q: i32,
    pub r: i32,
    pub z: i32,
}

impl IPos {
    pub open spec fn spec_s(self) -> int {
        -self.q - self.r
    }

    pub fn new(q: i32, r: i32, z: i32) -> (p: IPos)
        ensures
            p.q == q && p.r == r && p.z == z,
    {
        IPos { q, r, z }
    }

    pub fn splat(value: i32) -> (p: IPos)
        ensures
            p.q == value && p.r == value && p.z == value,
    {
        IPos { q: value, r: value, z: value }
    }

    /// This position moved by the given offsets.
    pub fn delta(&self, delta_q: i32, delta_r: i32, delta_z: i32) -> (p: IPos)
        requires
            fits_i32(self.q + delta_q),
            fits_i32(self.r + delta_r),
            fits_i32(self.z + delta_z),
        ensures
            p.q == self.q + delta_q,
            p.r == self.r + delta_r,
            p.z == self.z + delta_z,
    {
        IPos { q: self.q + delta_q, r: self.r + delta_r, z: self.z + delta_z }
    }

    pub fn q(&self) -> (v: i32)
        ensures
            v == self.q,
    {
        self.q
    }

    pub fn r(&self) -> (v: i32)
        ensures
            v == self.r,
    {
        self.r
    }

    /// The third axial coordinate, `-q - r`.
    pub fn s(&self) -> (v: i64)
        ensures
            v == self.spec_s(),
    {
        -(self.q as i64) - (self.r as i64)
    }

    pub fn z(&self) -> (v: i32)
        ensures
            v == self.z,
    {
        self.z
    }

    /// The `(q, r)` part of this position.
    pub fn qr(&self) -> (v: (i32, i32))
        ensures
            v == (self.q, self.r),
    {
        (self.q, self.r)
    }

    /// Component-wise sum.
    pub fn add(&self, other: &IPos) -> (p: IPos)
        requires
            fits_i32(self.q + other.q),
            fits_i32(self.r + other.r),
            fits_i32(self.z + other.z),
        ensures
            p.q == self.q + other.q,
            p.r == self.r + other.r,
            p.z == self.z + other.z,
    {
        IPos { q: self.q + other.q, r: self.r + other.r, z: self.z + other.z }
    }

    /// Component-wise difference.
    pub fn sub(&self, other: &IPos) -> (p: IPos)
        requires
            fits_i32(self.q - other.q),
            fits_i32(self.r - other.r),
            fits_i32(self.z - other.z),
        ensures
            p.q == self.q - other.q,
            p.r == self.r - other.r,
            p.z == self.z - other.z,
    {
        IPos { q: self.q - other.q, r: self.r - other.r, z: self.z - other.z }
    }

    /// Hex distance between the columns of `a` and `b`:
    /// `max(|dq|, |dr|, |ds|)`. Heights are not taken into account.
    pub fn distance(a: &IPos, b: &IPos) -> (d: i64)
        ensures
            d == hex_len(a.q - b.q, a.r - b.r),
    {
        let dq: i64 = a.q as i64 - b.q as i64;
        let dr: i64 = a.r as i64 - b.r as i64;
        let ds: i64 = -dq - dr;
        let aq: i64 = if dq < 0 { -dq } else { dq };
        let ar: i64 = if dr < 0 { -dr } else { dr };
        let as_: i64 = if ds < 0 { -ds } else { ds };
        if aq >= ar && aq >= as_ {
            aq
        } else if ar >= as_ {
            ar
        } else {
            as_
        }
    }

    /// Unit offset towards the neighbour with index `neighbour_index mod 6`.
    /// Index 0 is the +q axis; indices proceed counter-clockwise.
    pub fn direction(neighbour_index: u32) -> (p: IPos)
        ensures
            p.q == dir_q(neighbour_index as int),
            p.r == dir_r(neighbour_index as int),
            p.z == 0,
    {
        let k = neighbour_index % 6;
        if k == 0 {
            IPos::new(1, 0, 0)
        } else if k == 1 {
            IPos::new(0, 1, 0)
        } else if k == 2 {
            IPos::new(-1, 1, 0)
        } else if k == 3 {
            IPos::new(-1, 0, 0)
        } else if k == 4 {
            IPos::new(0, -1, 0)
        } else {
            IPos::new(1, -1, 0)
        }
    }

    /// The adjacent position in direction `neighbour_index mod 6`, at the same height.
    pub fn neighbour(&self, neighbour_index: u32) -> (p: IPos)
        requires
            fits_i32(self.q + dir_q(neighbour_index as int)),
            fits_i32(self.r + dir_r(neighbour_index as int)),
        ensures
            p.q == self.q + dir_q(neighbour_index as int),
            p.r == self.r + dir_r(neighbour_index as int),
            p.z == self.z,
    {
        self.add(&IPos::direction(neighbour_index))
    }
}

} // verus!

verus! {

/// Hex distance is symmetric, zero from a position to itself, and one from a
/// position to each of its six neighbours.
pub proof fn lemma_distance_laws(a: IPos, b: IPos, i: int)
    requires
        0 <= i < 6,
    ensures
        hex_len(a.q - b.q, a.r - b.r) == hex_len(b.q - a.q, b.r - a.r),
        hex_len(a.q - a.q, a.r - a.r) == 0,
        hex_len((a.q + dir_q(i)) - a.q, (a.r + dir_r(i)) - a.r) == 1,
{
}

/// Direction indices wrap around: index `i` and index `i + 6` name the same
/// neighbour.
pub proof fn lemma_direction_wraps(i: int)
    ensures
        dir_q(i) == dir_q(i + 6),
        dir_r(i) == dir_r(i + 6),
{
}

} // verus!

verus! {

/// The axial coordinate with the largest rounding error, the one that hex
/// rounding recomputes from the other two.
#[derive(Clone, Copy, Debug, PartialEq, Eq, Hash, Structural)]
pub enum RoundAxis {
    Q,
    R,
    S,
}

impl IPos {
    /// Completes hex rounding. `rounded_q`, `rounded_r` and `rounded_s` are
    /// the three axial coordinates of a fractional position, each rounded on
    /// its own; `largest` names the one whose rounding moved it most. That one
    /// is recomputed from the other two so that `q + r + s == 0` holds again.
    pub fn from_rounded(rounded_q: i32, rounded_r: i32, rounded_s: i32, z: i32, largest: RoundAxis) -> (p: IPos)
        requires
            largest == RoundAxis::Q ==> fits_i32(-rounded_r - rounded_s),
            largest == RoundAxis::R ==> fits_i32(-rounded_q - rounded_s),
        ensures
            p.z == z,
            largest != RoundAxis::Q ==> p.q == rounded_q,
            largest != RoundAxis::R ==> p.r == rounded_r,
            largest != RoundAxis::S ==> p.spec_s() == rounded_s,
            rounded_q + rounded_r + rounded_s == 0 ==> p == (IPos { q: rounded_q, r: rounded_r, z }),
    {
        match largest {
            RoundAxis::Q => IPos { q: (-(rounded_r as i64) - rounded_s as i64) as i32, r: rounded_r, z },
            RoundAxis::R => IPos { q: rounded_q, r: (-(rounded_q as i64) - rounded_s as i64) as i32, z },
            RoundAxis::S => IPos { q: rounded_q, r: rounded_r, z },
        }
    }
}

/// Rounding that lands on a grid position, as converting an integral position
/// to Cartesian space and back does, gives that position back whichever
/// coordinate is recomputed.
pub proof fn lemma_round_exact(p: IPos, largest: RoundAxis, q: IPos)
    requires
        largest != RoundAxis::Q ==> q.q == p.q,
        largest != RoundAxis::R ==> q.r == p.r,
        largest != RoundAxis::S ==> q.spec_s() == p.spec_s(),
        q.z == p.z,
    ensures
        q == p,
{
}

/// Hex rounding keeps the two coordinates that rounding moved least and
/// recomputes the third, so the rounded position satisfies `q + r + s == 0`
/// exactly.
pub proof fn lemma_round_on_grid(rounded_q: int, rounded_r: int, rounded_s: int, largest: RoundAxis, p: IPos)
    requires
        largest != RoundAxis::Q ==> p.q == rounded_q,
        largest != RoundAxis::R ==> p.r == rounded_r,
        largest != RoundAxis::S ==> p.spec_s() == rounded_s,
    ensures
        p.q + p.r + p.spec_s() == 0,
        largest == RoundAxis::Q ==> p.q == -rounded_r - rounded_s,
        largest == RoundAxis::R ==> p.r == -rounded_q - rounded_s,
        largest == RoundAxis::S ==> p.q == rounded_q && p.r == rounded_r,
{
}

} // verus!

verus! {

/// Lexicographic comparison of two `(q, r, z)` triples.
pub open spec fn cmp_qrz(a: (int, int, int), b: (int, int, int)) -> core::cmp::Ordering {
    if a.0 < b.0 {
        core::cmp::Ordering::Less
    } else if a.0 > b.0 {
        core::cmp::Ordering::Greater
    } else if a.1 < b.1 {
        core::cmp::Ordering::Less
    } else if a.1 > b.1 {
        core::cmp::Ordering::Greater
    } else if a.2 < b.2 {
        core::cmp::Ordering::Less
    } else if a.2 > b.2 {
        core::cmp::Ordering::Greater
    } else {
        core::cmp::Ordering::Equal
    }
}

/// Compares two `(q, r, z)` triples: by `q`, then `r`, then `z`.
pub fn compare_qrz(a: (i32, i32, i32), b: (i32, i32, i32)) -> (o: core::cmp::Ordering)
    ensures
        o == cmp_qrz((a.0 as int, a.1 as int, a.2 as int), (b.0 as int, b.1 as int, b.2 as int)),
{
    if a.0 < b.0 {
        core::cmp::Ordering::Less
    } else if a.0 > b.0 {
        core::cmp::Ordering::Greater
    } else if a.1 < b.1 {
        core::cmp::Ordering::Less
    } else if a.1 > b.1 {
        core::cmp::Ordering::Greater
    } else if a.2 < b.2 {
        core::cmp::Ordering::Less
    } else if a.2 > b.2 {
        core::cmp::Ordering::Greater
    } else {
        core::cmp::Ordering::Equal
    }
}

/// Order by `q` first, then `r`, then `z`, so that positions can be written
/// out in a fixed order.
impl PartialOrd for IPos {
    fn partial_cmp(&self, other: &IPos) -> Option<core::cmp::Ordering> {
        Some(compare_qrz((self.q, self.r, self.z), (other.q, other.r, other.z)))
    }
}

impl vstd::std_specs::cmp::PartialOrdSpecImpl for IPos {
    open spec fn obeys_partial_cmp_spec() -> bool {
        true
    }

    open spec fn partial_cmp_spec(&self, other: &IPos) -> Option<core::cmp::Ordering> {
        Some(cmp_qrz((self.q as int, self.r as int, self.z as int), (other.q as int, other.r as int, other.z as int)))
    }
}

} // verus!
