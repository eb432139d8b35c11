//! Blocks, biomes and the biome decision table.
use vstd::prelude::*;

verus! {

/// What a block is made of.
#[derive(Clone, Copy, Debug, PartialEq, Eq, Hash, Structural)]
pub enum BlockType {
    Air,
    Stone,
    Dirt,
    Grass,
    Water,
}

/// The biome a column belongs to.
#[derive(Clone, Copy, Debug, PartialEq, Eq, Hash, Structural)]
pub enum BiomeType {
    BorealForest,
    Desert,
    Forest,
    Grassland,
    Ice,
    Jungle,
    Savanna,
    Swamp,
    Tundra,
}

/// The band that a humidity or temperature sample falls in: below 0.33,
/// below 0.66, below 1.0, or anything else (1.0 and above, or no number).
#[derive(Clone, Copy, Debug, PartialEq, Eq, Hash, Structural)]
pub enum ClimateBand {
    Low,
    Medium,
    High,
    Outside,
}

/// One voxel of the world.
#[derive(Clone, Copy, Debug, PartialEq, Eq, Hash, Structural)]
pub struct Block {
    pub block_type: BlockType,
    pub biome_type: BiomeType,
}

impl Block {
    pub open spec fn spec_is_solid(self) -> bool {
        self.block_type != BlockType::Air
    }

    /// Every block type but air is solid.
    pub fn is_solid(&self) -> (v: bool)
        ensures
            v == self.spec_is_solid(),
    {
        !matches!(self.block_type, BlockType::Air)
    }

    /// The block that stands everywhere until terrain is generated: stone in
    /// grassland.
    pub open spec fn spec_default() -> Block {
        Block { block_type: BlockType::Stone, biome_type: BiomeType::Grassland }
    }
}

impl Default for Block {
    fn default() -> (b: Block)
        ensures
            b == Block::spec_default(),
    {
        Block { block_type: BlockType::Stone, biome_type: BiomeType::Grassland }
    }
}

/// The biome of a column with the given humidity and temperature bands:
/// three humidity bands by three temperature bands, grassland for anything
/// outside them.
pub open spec fn biome_of(humidity: ClimateBand, temperature: ClimateBand) -> BiomeType {
    match (humidity, temperature) {
        (ClimateBand::Low, ClimateBand::Low) => BiomeType::Ice,
        (ClimateBand::Low, ClimateBand::Medium) => BiomeType::Tundra,
        (ClimateBand::Low, ClimateBand::High) => BiomeType::BorealForest,
        (ClimateBand::Medium, ClimateBand::Low) => BiomeType::Desert,
        (ClimateBand::Medium, ClimateBand::Medium) => BiomeType::Grassland,
        (ClimateBand::Medium, ClimateBand::High) => BiomeType::Savanna,
        (ClimateBand::High, ClimateBand::Low) => BiomeType::Swamp,
        (ClimateBand::High, ClimateBand::Medium) => BiomeType::Jungle,
        (ClimateBand::High, ClimateBand::High) => BiomeType::Forest,
        _ => BiomeType::Grassland,
    }
}

/// Classifies one column by its humidity and temperature bands.
pub fn classify_biome(humidity: ClimateBand, temperature: ClimateBand) -> (b: BiomeType)
    ensures
        b == biome_of(humidity, temperature),
{
    match (humidity, temperature) {
        (ClimateBand::Low, ClimateBand::Low) => BiomeType::Ice,
        (ClimateBand::Low, ClimateBand::Medium) => BiomeType::Tundra,
        (ClimateBand::Low, ClimateBand::High) => BiomeType::BorealForest,
        (ClimateBand::Medium, ClimateBand::Low) => BiomeType::Desert,
        (ClimateBand::Medium, ClimateBand::Medium) => BiomeType::Grassland,
        (ClimateBand::Medium, ClimateBand::High) => BiomeType::Savanna,
        (ClimateBand::High, ClimateBand::Low) => BiomeType::Swamp,
        (ClimateBand::High, ClimateBand::Medium) => BiomeType::Jungle,
        (ClimateBand::High, ClimateBand::High) => BiomeType::Forest,
        _ => BiomeType::Grassland,
    }
}

/// Classifies each sample: entry `i` of the result is the biome of
/// `humidity[i]` and `temperature[i]`.
pub fn generate_biomes(humidity: &Vec<ClimateBand>, temperature: &Vec<ClimateBand>) -> (biomes: Vec<BiomeType>)
    requires
        temperature@.len() >= humidity@.len(),
    ensures
        biomes@.len() == humidity@.len(),
        forall|i: int| 0 <= i < humidity@.len() ==> #[trigger] biomes@[i] == biome_of(humidity@[i], temperature@[i]),
{
    let mut biomes: Vec<BiomeType> = Vec::new();
    let mut i: usize = 0;
    while i < humidity.len()
        invariant
            i <= humidity@.len() <= temperature@.len(),
            biomes@.len() == i,
            forall|k: int| 0 <= k < i ==> #[trigger] biomes@[k] == biome_of(humidity@[k], temperature@[k]),
        decreases humidity@.len() - i,
    {
        biomes.push(classify_biome(humidity[i], temperature[i]));
        i = i + 1;
    }
    biomes
}

} // verus!
