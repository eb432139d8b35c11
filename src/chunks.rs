//! The chunk registry: the loaded chunks by coordinate, and block and
//! solidity queries in absolute block positions.
use vstd::prelude::*;
use bevy::utils::HashMap;
use crate::block::{Block, BiomeType};
use crate::chunk::{Chunk, in_chunk, sample_index, terrain_block};
use crate::chunk_id::{ChunkId, CHUNK_BOUNDS, CHUNK_HEIGHT, CHUNK_RADIUS, center_q, center_r, layer_of};
use crate::ipos::{IPos, hex_len};

verus! {

/// Chunks by coordinate, kept in bevy's hash map.
#[verifier::external_body]
pub struct ChunkTable {
    map: HashMap<ChunkId, Chunk>,
}

/// The chunks that a table holds, by coordinate.
pub uninterp spec fn table_contents(t: ChunkTable) -> Map<ChunkId, Chunk>;

impl ChunkTable {
    /// Relies on `Default` of bevy's `HashMap` (hashbrown): a new map is empty.
    #[verifier::external_body]
    fn new() -> (table: ChunkTable)
        ensures
            table_contents(table) =~= Map::empty(),
    {
        ChunkTable { map: HashMap::default() }
    }

    /// Relies on hashbrown's `HashMap::get`: the value stored under the key, if any.
    #[verifier::external_body]
    fn get(&self, id: &ChunkId) -> (c: Option<&Chunk>)
        ensures
            c.is_some() == table_contents(*self).contains_key(*id),
            c.is_some() ==> *c.unwrap() == table_contents(*self)[*id],
    {
        self.map.get(id)
    }

    /// Relies on hashbrown's `HashMap::contains_key`: whether a value is stored under the key.
    #[verifier::external_body]
    fn contains_key(&self, id: &ChunkId) -> (v: bool)
        ensures
            v == table_contents(*self).contains_key(*id),
    {
        self.map.contains_key(id)
    }

    /// Relies on hashbrown's `HashMap::insert`: the key now maps to the value,
    /// replacing any earlier one; other keys keep theirs.
    #[verifier::external_body]
    fn insert(&mut self, id: ChunkId, chunk: Chunk)
        ensures
            table_contents(*final(self)) == table_contents(*old(self)).insert(id, chunk),
    {
        self.map.insert(id, chunk);
    }

    /// Relies on hashbrown's `HashMap::remove`: the key no longer maps to
    /// anything; other keys keep their values.
    #[verifier::external_body]
    fn remove(&mut self, id: &ChunkId)
        ensures
            table_contents(*final(self)) == table_contents(*old(self)).remove(*id),
    {
        self.map.remove(id);
    }

    /// Relies on hashbrown's `HashMap::keys`: every key once, in no fixed order.
    #[verifier::external_body]
    fn keys(&self) -> (ks: Vec<ChunkId>)
        ensures
            ks@.no_duplicates(),
            forall|id: ChunkId| ks@.contains(id) == table_contents(*self).contains_key(id),
    {
        self.map.keys().copied().collect()
    }
}

/// The chunk that holds block `p`.
pub open spec fn owner(p: IPos) -> ChunkId {
    choose|c: ChunkId| c.holds(p)
}

/// Position of block `p` relative to the centre of chunk `c`.
pub open spec fn relative(c: ChunkId, p: IPos) -> IPos {
    IPos {
        q: (p.q - center_q(c.q as int, c.r as int)) as i32,
        r: (p.r - center_r(c.q as int, c.r as int)) as i32,
        z: (p.z - c.z * CHUNK_HEIGHT) as i32,
    }
}

/// Block `p` relative to the centre of a chunk `c` that holds it.
fn chunk_relative(c: &ChunkId, p: &IPos) -> (rel: IPos)
    requires
        c.holds(*p),
    ensures
        rel == relative(*c, *p),
        in_chunk(rel),
{
    let radius = CHUNK_RADIUS as i64;
    let cq = (2 * radius + 1) * (c.q as i64) + radius * (c.r as i64);
    let cr = (radius + 1) * (c.r as i64) - radius * (c.q as i64);
    let height = CHUNK_HEIGHT as i64;
    assert(height == 32);
    let cz = (c.z as i64) * height;
    proof {
        vstd::arithmetic::div_mod::lemma_fundamental_div_mod(p.z as int, CHUNK_HEIGHT as int);
        vstd::arithmetic::div_mod::lemma_mod_bound(p.z as int, CHUNK_HEIGHT as int);
    }
    IPos { q: (p.q as i64 - cq) as i32, r: (p.r as i64 - cr) as i32, z: (p.z as i64 - cz) as i32 }
}

/// Whether `v` holds `id`.
fn contains_id(v: &Vec<ChunkId>, id: &ChunkId) -> (found: bool)
    ensures
        found == v@.contains(*id),
{
    let mut i: usize = 0;
    while i < v.len()
        invariant
            i <= v@.len(),
            forall|k: int| 0 <= k < i ==> v@[k] != *id,
        decreases v@.len() - i,
    {
        if v[i] == *id {
            return true;
        }
        i = i + 1;
    }
    false
}

/// The loaded chunks of the world, by coordinate.
pub struct Chunks {
    chunks: ChunkTable,
}

impl Chunks {
    /// The loaded chunks by coordinate.
    pub closed spec fn contents(&self) -> Map<ChunkId, Chunk> {
        table_contents(self.chunks)
    }

    /// Every loaded chunk is well formed.
    pub open spec fn wf(&self) -> bool {
        forall|id: ChunkId| #[trigger] self.contents().contains_key(id) ==> self.contents()[id].wf()
    }

    /// The block at absolute position `p`, or `None` where its chunk is not
    /// loaded.
    pub open spec fn spec_block(&self, p: IPos) -> Option<Block> {
        let c = owner(p);
        if self.contents().contains_key(c) {
            Some(self.contents()[c].spec_block(relative(c, p)))
        } else {
            None
        }
    }

    /// Whether the block at absolute position `p` is loaded and solid.
    pub open spec fn spec_is_solid(&self, p: IPos) -> bool {
        self.spec_block(p).is_some() && self.spec_block(p).unwrap().spec_is_solid()
    }

    /// An empty registry.
    pub fn new() -> (chunks: Chunks)
        ensures
            chunks.wf(),
            chunks.contents() == Map::<ChunkId, Chunk>::empty(),
    {
        Chunks { chunks: ChunkTable::new() }
    }

    /// The block at absolute position `pos`: looked up in the chunk that holds
    /// it, `None` where that chunk is not loaded.
    pub fn block(&self, pos: &IPos) -> (b: Option<Block>)
        requires
            self.wf(),
        ensures
            b == self.spec_block(*pos),
    {
        let chunk_id = ChunkId::from_block_pos(pos);
        proof {
            crate::chunk_id::lemma_chunk_unique(chunk_id, owner(*pos), *pos);
        }
        let pos_relative = chunk_relative(&chunk_id, pos);
        match self.chunks.get(&chunk_id) {
            Some(chunk) => chunk.block(&pos_relative),
            None => None,
        }
    }

    /// Whether the block at absolute position `pos` is solid. A block whose
    /// chunk is not loaded counts as not solid.
    pub fn is_solid(&self, pos_absolute: &IPos) -> (v: bool)
        requires
            self.wf(),
        ensures
            v == self.spec_is_solid(*pos_absolute),
    {
        match self.block(pos_absolute) {
            Some(block) => block.is_solid(),
            None => false,
        }
    }

    /// Whether chunk `id` is loaded.
    pub fn contains(&self, id: &ChunkId) -> (v: bool)
        ensures
            v == self.contents().contains_key(*id),
    {
        self.chunks.contains_key(id)
    }

    /// The loaded chunk `id`.
    pub fn get_chunk(&self, chunk_id: &ChunkId) -> (chunk: &Chunk)
        requires
            self.contents().contains_key(*chunk_id),
        ensures
            *chunk == self.contents()[*chunk_id],
    {
        self.chunks.get(chunk_id).unwrap()
    }

    /// Generates chunk `chunk_id` from terrain samples (see
    /// `Chunk::from_terrain`) and stores it, replacing any chunk loaded there
    /// before. Other chunks are untouched.
    pub fn generate_chunk(&mut self, chunk_id: ChunkId, levels: &Vec<u32>, biomes: &Vec<BiomeType>)
        requires
            old(self).wf(),
            levels@.len() == CHUNK_BOUNDS * CHUNK_BOUNDS,
            biomes@.len() == CHUNK_BOUNDS * CHUNK_BOUNDS,
        ensures
            final(self).wf(),
            final(self).contents().dom() == old(self).contents().dom().insert(chunk_id),
            forall|id: ChunkId| id != chunk_id && #[trigger] old(self).contents().contains_key(id)
                ==> final(self).contents()[id] == old(self).contents()[id],
            forall|p: IPos|
                in_chunk(p) ==> #[trigger] final(self).contents()[chunk_id].spec_block(p) == terrain_block(
                    levels@[sample_index(p.q as int, p.r as int)] as int,
                    p.z as int,
                    biomes@[sample_index(p.q as int, p.r as int)],
                ),
    {
        let chunk = Chunk::from_terrain(levels, biomes);
        self.chunks.insert(chunk_id, chunk);
        proof {
            assert(self.contents().dom() =~= old(self).contents().dom().insert(chunk_id));
        }
    }

    /// Unloads every chunk whose coordinate is not in `allowed`; the others
    /// stay as they are.
    pub fn cull_chunks(&mut self, allowed: &Vec<ChunkId>)
        requires
            old(self).wf(),
        ensures
            final(self).wf(),
            final(self).contents() == old(self).contents().restrict(allowed@.to_set()),
    {
        let keys = self.chunks.keys();
        let ghost start = self.contents();
        let mut t: usize = 0;
        while t < keys.len()
            invariant
                t <= keys@.len(),
                forall|id: ChunkId| keys@.contains(id) == start.contains_key(id),
                forall|id: ChunkId| #[trigger] start.contains_key(id) ==> start[id].wf(),
                forall|id: ChunkId|
                    #[trigger] self.contents().contains_key(id) ==> start.contains_key(id) && self.contents()[id]
                        == start[id],
                forall|id: ChunkId|
                    #[trigger] start.contains_key(id) && allowed@.contains(id) ==> self.contents().contains_key(id),
                forall|u: int|
                    0 <= u < t && !allowed@.contains(#[trigger] keys@[u]) ==> !self.contents().contains_key(keys@[u]),
            decreases keys@.len() - t,
        {
            let key = keys[t];
            let ghost prev = self.contents();
            if !contains_id(allowed, &key) {
                self.chunks.remove(&key);
            }
            proof {
                assert forall|id: ChunkId| #[trigger] self.contents().contains_key(id) implies start.contains_key(id)
                    && self.contents()[id] == start[id] by {
                    assert(prev.contains_key(id));
                }
            }
            t = t + 1;
        }
        proof {
            assert forall|id: ChunkId| #[trigger] self.contents().contains_key(id) implies allowed@.contains(id) by {
                assert(keys@.contains(id));
                let u = choose|u: int| 0 <= u < keys@.len() && keys@[u] == id;
            }
            assert(self.contents() =~= start.restrict(allowed@.to_set()));
        }
    }
}

impl Default for Chunks {
    /// An empty registry, as `Chunks::new`.
    fn default() -> (chunks: Chunks)
        ensures
            chunks.wf(),
            chunks.contents() == Map::<ChunkId, Chunk>::empty(),
    {
        Chunks::new()
    }
}

} // verus!
