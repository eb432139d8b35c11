//! Which chunks to load, render and unload around a loader (typically the
//! player), and the bookkeeping of one load / unload cycle.
use vstd::prelude::*;
use crate::chunk_id::ChunkId;
use crate::columns::{ColumnId, MAX_WALK_RADIUS, spiral_len, spiral_cell};
use crate::ipos::fits_i32;

verus! {

/// Keeps chunks loaded around the entity it is attached to: those within
/// `radius_min` are always rendered, those within `radius_max` may be, and
/// one ring more stays loaded without being rendered.
#[derive(Clone, Copy, Debug, Default, PartialEq, Eq, Structural)]
pub struct ChunkLoader {
    pub radius_min: u32,
    pub radius_max: u32,
}

/// Marks a chunk mesh with the chunk it shows.
#[derive(Clone, Copy, Debug, Default, PartialEq, Eq, Structural)]
pub struct ChunkMesh {
    pub id: ChunkId,
}

/// The chunks one loader asks for in one cycle, each list a spiral around
/// the loader's chunk.
pub struct LoadSets {
    pub must_be_rendered: Vec<ChunkId>,
    pub may_be_rendered: Vec<ChunkId>,
    pub may_be_loaded: Vec<ChunkId>,
}

/// Chunk number `t` of the spiral of radius `radius` around `center`, in
/// layer 0.
pub open spec fn spiral_chunk(center: ChunkId, radius: nat, t: int) -> ChunkId {
    ChunkId {
        q: (center.q + spiral_cell(radius, t).0) as i32,
        r: (center.r + spiral_cell(radius, t).1) as i32,
        z: 0,
    }
}

/// Whether the spiral of radius `radius` around `center` stays within `i32`.
pub open spec fn spiral_fits(center: ChunkId, radius: int) -> bool {
    &&& fits_i32(center.q - radius) && fits_i32(center.q + radius)
    &&& fits_i32(center.r - radius) && fits_i32(center.r + radius)
}

/// The chunks within hex distance `radius` of `center` in the chunk lattice,
/// in layer 0, in spiral order.
pub fn chunks_around(center: &ChunkId, radius: u32) -> (ids: Vec<ChunkId>)
    requires
        radius <= MAX_WALK_RADIUS,
        spiral_fits(*center, radius as int),
    ensures
        ids@.len() == spiral_len(radius as nat),
        forall|t: int| 0 <= t < ids@.len() ==> #[trigger] ids@[t] == spiral_chunk(*center, radius as nat, t),
{
    let cols = ColumnId::spiral(radius);
    let mut ids: Vec<ChunkId> = Vec::new();
    let mut t: usize = 0;
    while t < cols.len()
        invariant
            t <= cols@.len() == spiral_len(radius as nat),
            radius <= MAX_WALK_RADIUS,
            spiral_fits(*center, radius as int),
            forall|u: int| 0 <= u < spiral_len(radius as nat) ==> #[trigger] cols@[u]@ == spiral_cell(radius as nat, u),
            ids@.len() == t,
            forall|u: int| 0 <= u < t ==> #[trigger] ids@[u] == spiral_chunk(*center, radius as nat, u),
        decreases cols@.len() - t,
    {
        let c = cols[t];
        proof {
            crate::columns::lemma_spiral_in_hexagon(radius as nat, t as int);
            assert(cols@[t as int]@ == spiral_cell(radius as nat, t as int));
        }
        ids.push(ChunkId { q: center.q + c.q, r: center.r + c.r, z: 0 });
        t = t + 1;
    }
    ids
}

/// Spirals of growing radius around one centre share their beginning: the
/// spiral of radius `small` is the start of the spiral of radius `large`.
pub proof fn lemma_spiral_prefix(small: nat, large: nat, t: int)
    requires
        small <= large,
        0 <= t < spiral_len(small),
    ensures
        t < spiral_len(large),
        spiral_cell(small, t) == spiral_cell(large, t),
    decreases large,
{
    if small < large {
        lemma_spiral_prefix(small, (large - 1) as nat, t);
        let a = large as int;
        assert(3 * a * a + 3 * a + 1 >= 3 * (a - 1) * (a - 1) + 3 * (a - 1) + 1) by (nonlinear_arith)
            requires a >= 1;
    }
}

impl ChunkLoader {
    /// A loader with the given radii; a minimum above the maximum is lowered
    /// to the maximum.
    pub fn new(radius_min: u32, radius_max: u32) -> (loader: ChunkLoader)
        ensures
            loader.radius_max == radius_max,
            loader.radius_min == if radius_min > radius_max { radius_max } else { radius_min },
    {
        if radius_min > radius_max {
            ChunkLoader { radius_min: radius_max, radius_max }
        } else {
            ChunkLoader { radius_min, radius_max }
        }
    }

    /// The chunks this loader asks for when it stands in chunk `center`: the
    /// spirals of radius `radius_min`, `radius_max` and `radius_max + 1`
    /// around it, in layer 0.
    pub fn load_sets(&self, center: &ChunkId) -> (sets: LoadSets)
        requires
            self.radius_min <= self.radius_max < MAX_WALK_RADIUS,
            spiral_fits(*center, self.radius_max + 1),
        ensures
            sets.must_be_rendered@.len() == spiral_len(self.radius_min as nat),
            sets.may_be_rendered@.len() == spiral_len(self.radius_max as nat),
            sets.may_be_loaded@.len() == spiral_len((self.radius_max + 1) as nat),
            forall|t: int|
                0 <= t < sets.must_be_rendered@.len() ==> #[trigger] sets.must_be_rendered@[t] == spiral_chunk(
                    *center,
                    self.radius_min as nat,
                    t,
                ),
            forall|t: int|
                0 <= t < sets.may_be_rendered@.len() ==> #[trigger] sets.may_be_rendered@[t] == spiral_chunk(
                    *center,
                    self.radius_max as nat,
                    t,
                ),
            forall|t: int|
                0 <= t < sets.may_be_loaded@.len() ==> #[trigger] sets.may_be_loaded@[t] == spiral_chunk(
                    *center,
                    (self.radius_max + 1) as nat,
                    t,
                ),
            forall|id: ChunkId| sets.must_be_rendered@.contains(id) ==> sets.may_be_rendered@.contains(id),
            forall|id: ChunkId| sets.may_be_rendered@.contains(id) ==> sets.may_be_loaded@.contains(id),
    {
        let must_be_rendered = chunks_around(center, self.radius_min);
        let may_be_rendered = chunks_around(center, self.radius_max);
        let may_be_loaded = chunks_around(center, self.radius_max + 1);
        proof {
            assert forall|id: ChunkId| must_be_rendered@.contains(id) implies may_be_rendered@.contains(id) by {
                let t = choose|t: int| 0 <= t < must_be_rendered@.len() && must_be_rendered@[t] == id;
                lemma_spiral_prefix(self.radius_min as nat, self.radius_max as nat, t);
                assert(may_be_rendered@[t] == id);
            }
            assert forall|id: ChunkId| may_be_rendered@.contains(id) implies may_be_loaded@.contains(id) by {
                let t = choose|t: int| 0 <= t < may_be_rendered@.len() && may_be_rendered@[t] == id;
                lemma_spiral_prefix(self.radius_max as nat, (self.radius_max + 1) as nat, t);
                assert(may_be_loaded@[t] == id);
            }
        }
        LoadSets { must_be_rendered, may_be_rendered, may_be_loaded }
    }
}

/// Whether `v` holds `id`.
fn holds_id(v: &Vec<ChunkId>, id: &ChunkId) -> (found: bool)
    ensures
        found == v@.contains(*id),
{
    let mut i: usize = 0;
    while i < v.len()
        invariant
            i <= v@.len(),
            forall|k: int| 0 <= k < i ==> v@[k] != *id,
        decreases v@.len() - i,
    {
        if v[i] == *id {
            return true;
        }
        i = i + 1;
    }
    false
}

/// The entries of `ids` that `others` does not hold, in their order: the
/// chunks still to be loaded or meshed, or the meshes to despawn.
pub fn missing_from(ids: &Vec<ChunkId>, others: &Vec<ChunkId>) -> (missing: Vec<ChunkId>)
    ensures
        missing@ == ids@.filter(|id: ChunkId| !others@.contains(id)),
{
    let mut missing: Vec<ChunkId> = Vec::new();
    let mut i: usize = 0;
    while i < ids.len()
        invariant
            i <= ids@.len(),
            missing@ == ids@.subrange(0, i as int).filter(|id: ChunkId| !others@.contains(id)),
        decreases ids@.len() - i,
    {
        let id = ids[i];
        proof {
            assert(ids@.subrange(0, i + 1) == ids@.subrange(0, i as int).push(id));
            ids@.subrange(0, i as int).lemma_filter_push(id, |id: ChunkId| !others@.contains(id));
        }
        if !holds_id(others, &id) {
            missing.push(id);
        }
        i = i + 1;
    }
    proof {
        assert(ids@.subrange(0, ids@.len() as int) == ids@);
    }
    missing
}

/// Whether a load / unload cycle is due: some chunk that must be rendered
/// has no mesh yet.
pub fn needs_load_cycle(must_be_rendered: &Vec<ChunkId>, are_rendered: &Vec<ChunkId>) -> (due: bool)
    ensures
        due == exists|id: ChunkId| must_be_rendered@.contains(id) && !are_rendered@.contains(id),
{
    let mut i: usize = 0;
    while i < must_be_rendered.len()
        invariant
            i <= must_be_rendered@.len(),
            forall|k: int| 0 <= k < i ==> are_rendered@.contains(#[trigger] must_be_rendered@[k]),
        decreases must_be_rendered@.len() - i,
    {
        if !holds_id(are_rendered, &must_be_rendered[i]) {
            proof {
                assert(must_be_rendered@.contains(must_be_rendered@[i as int]));
            }
            return true;
        }
        i = i + 1;
    }
    proof {
        assert forall|id: ChunkId| must_be_rendered@.contains(id) implies are_rendered@.contains(id) by {
            let k = choose|k: int| 0 <= k < must_be_rendered@.len() && must_be_rendered@[k] == id;
        }
    }
    false
}

} // verus!
