use hex_world::block::{classify_biome, generate_biomes, BiomeType, Block, BlockType, ClimateBand};
use hex_world::chunk::{
    index_to_qr, index_to_qrz, qr_to_index, qrz_to_index, Chunk, OutOfChunk, CHUNK_COLUMNS,
};
use hex_world::chunk_id::{ChunkId, CHUNK_BOUNDS, CHUNK_HEIGHT, CHUNK_RADIUS};
use hex_world::chunks::Chunks;
use hex_world::ipos::IPos;
use hex_world::mesh::{chunk_faces, Face, FaceDir};

const SAMPLES: usize = CHUNK_BOUNDS * CHUNK_BOUNDS;

fn hex_len(q: i32, r: i32) -> i32 {
    q.abs().max(r.abs()).max((q + r).abs())
}

fn flat_terrain(level: u32, biome: BiomeType) -> (Vec<u32>, Vec<BiomeType>) {
    (vec![level; SAMPLES], vec![biome; SAMPLES])
}

#[test]
fn chunk_columns_count_and_bounds() {
    let cols = Chunk::chunk_columns();
    let r = CHUNK_RADIUS;
    assert_eq!(cols.len(), 3 * r * r + 3 * r + 1);
    assert_eq!(cols.len(), CHUNK_COLUMNS);
    for c in cols.iter() {
        let sq = c.q + CHUNK_RADIUS as i32;
        let sr = c.r + CHUNK_RADIUS as i32;
        assert!(sq >= 0 && (sq as usize) < CHUNK_BOUNDS);
        assert!(sr >= 0 && (sr as usize) < CHUNK_BOUNDS);
    }
}

#[test]
fn new_chunk_is_stone_in_grassland() {
    let chunk = Chunk::new();
    let b = chunk.block(&IPos::new(0, 0, 0)).unwrap();
    assert_eq!(b, Block::default());
    assert_eq!(b.block_type, BlockType::Stone);
    assert_eq!(b.biome_type, BiomeType::Grassland);
    assert!(b.is_solid());
}

#[test]
fn block_and_set_fail_outside_footprint() {
    let mut chunk = Chunk::new();
    let r = CHUNK_RADIUS as i32;
    let outside = [
        IPos::new(r + 1, 0, 0),
        IPos::new(r, r, 0),
        IPos::new(-r, -1, 0),
        IPos::new(0, 0, -1),
        IPos::new(0, 0, CHUNK_HEIGHT as i32),
    ];
    let air = Block { block_type: BlockType::Air, biome_type: BiomeType::Ice };
    for p in outside.iter() {
        assert_eq!(chunk.block(p), None);
        assert_eq!(chunk.set(p, air), Err(OutOfChunk { pos: *p }));
    }
    for q in -12..13 {
        for rr in -12..13 {
            let inside = hex_len(q, rr) <= r;
            assert_eq!(chunk.block(&IPos::new(q, rr, 0)).is_some(), inside);
        }
    }
}

#[test]
fn block_and_set_succeed_inside_footprint() {
    let mut chunk = Chunk::new();
    let air = Block { block_type: BlockType::Air, biome_type: BiomeType::Desert };
    for c in Chunk::chunk_columns().iter() {
        for z in 0..CHUNK_HEIGHT as i32 {
            let p = c.as_ipos(z);
            assert!(chunk.block(&p).is_some());
            assert_eq!(chunk.set(&p, air), Ok(()));
            assert_eq!(chunk.block(&p), Some(air));
        }
    }
}

#[test]
fn set_changes_only_its_block() {
    let mut chunk = Chunk::new();
    let water = Block { block_type: BlockType::Water, biome_type: BiomeType::Swamp };
    let p = IPos::new(2, -3, 7);
    assert_eq!(chunk.set(&p, water), Ok(()));
    assert_eq!(chunk.block(&p), Some(water));
    assert_eq!(chunk.block(&IPos::new(2, -3, 6)), Some(Block::default()));
    assert_eq!(chunk.block(&IPos::new(3, -3, 7)), Some(Block::default()));
}

#[test]
fn terrain_fills_stone_below_level() {
    let mut levels = vec![0u32; SAMPLES];
    let mut biomes = vec![BiomeType::Ice; SAMPLES];
    // Column (1, 2): sample index (r + R) * BOUNDS + (q + R).
    let idx = (2 + CHUNK_RADIUS) * CHUNK_BOUNDS + (1 + CHUNK_RADIUS);
    levels[idx] = 5;
    biomes[idx] = BiomeType::Jungle;
    let chunk = Chunk::from_terrain(&levels, &biomes);
    for z in 0..CHUNK_HEIGHT as i32 {
        let b = chunk.block(&IPos::new(1, 2, z)).unwrap();
        assert_eq!(b.block_type, if z < 5 { BlockType::Stone } else { BlockType::Air });
        assert_eq!(b.biome_type, BiomeType::Jungle);
        let other = chunk.block(&IPos::new(2, 1, z)).unwrap();
        assert_eq!(other.block_type, BlockType::Air);
        assert_eq!(other.biome_type, BiomeType::Ice);
    }
}

#[test]
fn index_helpers_round_trip() {
    for i in 0..SAMPLES {
        let p = index_to_qr(i);
        assert_eq!(qr_to_index(&p), i);
    }
    assert_eq!(qr_to_index(&IPos::new(3, 2, 0)), 2 * CHUNK_BOUNDS + 3);
    for i in 0..SAMPLES * CHUNK_HEIGHT {
        assert_eq!(qrz_to_index(index_to_qrz(i)), i);
    }
    assert_eq!(index_to_qrz(CHUNK_BOUNDS * CHUNK_BOUNDS + CHUNK_BOUNDS + 1), IPos::new(1, 1, 1));
}

#[test]
fn biome_table() {
    assert_eq!(classify_biome(ClimateBand::Low, ClimateBand::Low), BiomeType::Ice);
    assert_eq!(classify_biome(ClimateBand::Low, ClimateBand::Medium), BiomeType::Tundra);
    assert_eq!(classify_biome(ClimateBand::Low, ClimateBand::High), BiomeType::BorealForest);
    assert_eq!(classify_biome(ClimateBand::Medium, ClimateBand::Low), BiomeType::Desert);
    assert_eq!(classify_biome(ClimateBand::Medium, ClimateBand::Medium), BiomeType::Grassland);
    assert_eq!(classify_biome(ClimateBand::Medium, ClimateBand::High), BiomeType::Savanna);
    assert_eq!(classify_biome(ClimateBand::High, ClimateBand::Low), BiomeType::Swamp);
    assert_eq!(classify_biome(ClimateBand::High, ClimateBand::Medium), BiomeType::Jungle);
    assert_eq!(classify_biome(ClimateBand::High, ClimateBand::High), BiomeType::Forest);
    assert_eq!(classify_biome(ClimateBand::Outside, ClimateBand::Low), BiomeType::Grassland);
    assert_eq!(classify_biome(ClimateBand::Low, ClimateBand::Outside), BiomeType::Grassland);
    let biomes = generate_biomes(&vec![ClimateBand::Low, ClimateBand::High, ClimateBand::Outside], &vec![ClimateBand::High, ClimateBand::Medium, ClimateBand::Low, ClimateBand::Low]);
    assert_eq!(biomes, vec![BiomeType::BorealForest, BiomeType::Jungle, BiomeType::Grassland]);
}

#[test]
fn registry_cull_keeps_allowed() {
    let mut chunks = Chunks::new();
    let (levels, biomes) = flat_terrain(4, BiomeType::Forest);
    let a = ChunkId::new(0, 0, 0);
    let b = ChunkId::new(1, 0, 0);
    let c = ChunkId::new(-2, 3, 1);
    for id in [a, b, c] {
        chunks.generate_chunk(id, &levels, &biomes);
    }
    assert!(chunks.contains(&a) && chunks.contains(&b) && chunks.contains(&c));
    chunks.cull_chunks(&vec![a, c]);
    assert!(!chunks.contains(&b));
    assert!(chunks.contains(&a));
    assert!(chunks.contains(&c));
}

#[test]
fn registry_block_and_solidity() {
    let mut chunks = Chunks::new();
    let (levels, biomes) = flat_terrain(4, BiomeType::Savanna);
    let id = ChunkId::new(1, -1, 0);
    chunks.generate_chunk(id, &levels, &biomes);
    let center = id.center_pos();
    let stone = IPos::new(center.q + 2, center.r - 1, 3);
    let air = IPos::new(center.q + 2, center.r - 1, 4);
    assert_eq!(chunks.block(&stone).unwrap().block_type, BlockType::Stone);
    assert!(chunks.is_solid(&stone));
    assert_eq!(chunks.block(&air).unwrap().block_type, BlockType::Air);
    assert!(!chunks.is_solid(&air));
    // Not loaded: no block and not solid.
    let far = IPos::new(center.q + 40, center.r, 0);
    assert_eq!(chunks.block(&far), None);
    assert!(!chunks.is_solid(&far));
    assert_eq!(chunks.get_chunk(&id).block(&IPos::new(2, -1, 3)), chunks.block(&stone));
}

#[test]
fn generate_chunk_overwrites() {
    let mut chunks = Chunks::new();
    let id = ChunkId::new(0, 0, 0);
    let (low, biomes) = flat_terrain(2, BiomeType::Ice);
    let (high, _) = flat_terrain(20, BiomeType::Ice);
    chunks.generate_chunk(id, &low, &biomes);
    assert!(!chunks.is_solid(&IPos::new(0, 0, 10)));
    chunks.generate_chunk(id, &high, &biomes);
    assert!(chunks.is_solid(&IPos::new(0, 0, 10)));
}

#[test]
fn end_to_end_flat_chunk() {
    let height: u32 = 12;
    let mut chunks = Chunks::new();
    let (levels, biomes) = flat_terrain(height, BiomeType::Grassland);
    let id = ChunkId::new(0, 0, 0);
    chunks.generate_chunk(id, &levels, &biomes);
    let chunk = chunks.get_chunk(&id);
    for c in Chunk::chunk_columns().iter() {
        for z in 0..CHUNK_HEIGHT as i32 {
            let b = chunk.block(&c.as_ipos(z)).unwrap();
            let expected = if z < height as i32 { BlockType::Stone } else { BlockType::Air };
            assert_eq!(b.block_type, expected);
        }
    }
    let faces = chunk_faces(&chunks, &id);
    let tops: Vec<&Face> = faces.iter().filter(|f| f.dir == FaceDir::Top).collect();
    assert_eq!(tops.len(), CHUNK_COLUMNS);
    for f in tops.iter() {
        assert_eq!(f.pos.z, height as i32 - 1);
    }
    assert!(faces.iter().all(|f| f.dir != FaceDir::Bottom));
    let r = CHUNK_RADIUS as i32;
    let mut sides = 0;
    for f in faces.iter() {
        if let FaceDir::Side(i) = f.dir {
            sides += 1;
            assert_eq!(hex_len(f.pos.q, f.pos.r), r);
            let n = f.pos.neighbour(i);
            assert!(hex_len(n.q, n.r) > r);
            assert!(f.pos.z < height as i32);
        }
    }
    // The outer ring has 6R columns; 6 corners show 3 sides, the others 2.
    assert_eq!(sides, (6 * 3 + (6 * r as usize - 6) * 2) * height as usize);
    let mut sorted = faces.clone();
    sorted.sort_by_key(|f| (f.pos.q, f.pos.r, f.pos.z, format!("{:?}", f.dir)));
    sorted.dedup();
    assert_eq!(sorted.len(), faces.len());
}

#[test]
fn shared_faces_between_chunks_are_hidden() {
    let mut chunks = Chunks::new();
    let (levels, biomes) = flat_terrain(3, BiomeType::Desert);
    let a = ChunkId::new(0, 0, 0);
    let b = ChunkId::new(1, 0, 0);
    chunks.generate_chunk(a, &levels, &biomes);
    let before = chunk_faces(&chunks, &a);
    chunks.generate_chunk(b, &levels, &biomes);
    let after = chunk_faces(&chunks, &a);
    assert!(after.len() < before.len());
    let a_center = a.center_pos();
    for f in after.iter() {
        if let FaceDir::Side(i) = f.dir {
            let abs = IPos::new(f.pos.q + a_center.q, f.pos.r + a_center.r, f.pos.z);
            let n = abs.neighbour(i);
            assert_ne!(ChunkId::from_block_pos(&n), b);
            assert!(!chunks.is_solid(&n));
        }
    }
    let faces_b = chunk_faces(&chunks, &b);
    let b_center = b.center_pos();
    for f in faces_b.iter() {
        if let FaceDir::Side(i) = f.dir {
            let abs = IPos::new(f.pos.q + b_center.q, f.pos.r + b_center.r, f.pos.z);
            assert_ne!(ChunkId::from_block_pos(&abs.neighbour(i)), a);
        }
    }
}

#[test]
fn face_towards_air_shows_once() {
    let mut chunks = Chunks::new();
    let mut levels = vec![0u32; SAMPLES];
    let biomes = vec![BiomeType::Tundra; SAMPLES];
    let idx = (0 + CHUNK_RADIUS) * CHUNK_BOUNDS + (0 + CHUNK_RADIUS);
    levels[idx] = 1;
    let id = ChunkId::new(0, 0, 0);
    chunks.generate_chunk(id, &levels, &biomes);
    let faces = chunk_faces(&chunks, &id);
    // A lone block at the floor: six sides and a top, no bottom.
    assert_eq!(faces.len(), 7);
    for i in 0..6 {
        let count = faces.iter().filter(|f| f.dir == FaceDir::Side(i)).count();
        assert_eq!(count, 1);
    }
    assert_eq!(faces.iter().filter(|f| f.dir == FaceDir::Top).count(), 1);
}

#[test]
fn world_floor_bottom_hidden_but_upper_layer_bottom_shown() {
    let mut chunks = Chunks::new();
    let (levels, biomes) = flat_terrain(CHUNK_HEIGHT as u32, BiomeType::Ice);
    let upper = ChunkId::new(0, 0, 1);
    chunks.generate_chunk(upper, &levels, &biomes);
    let faces = chunk_faces(&chunks, &upper);
    // Layer 1 starts at height 32: nothing below is loaded, so bottoms show.
    assert_eq!(faces.iter().filter(|f| f.dir == FaceDir::Bottom).count(), CHUNK_COLUMNS);
    let floor = ChunkId::new(0, 0, 0);
    chunks.generate_chunk(floor, &levels, &biomes);
    let floor_faces = chunk_faces(&chunks, &floor);
    assert!(floor_faces.iter().all(|f| f.dir != FaceDir::Bottom));
    assert!(floor_faces.iter().all(|f| f.dir != FaceDir::Top));
    let upper_faces = chunk_faces(&chunks, &upper);
    assert!(upper_faces.iter().all(|f| f.dir != FaceDir::Bottom));
}

#[test]
fn defaults_are_new() {
    let chunk = Chunk::default();
    assert_eq!(chunk.block(&IPos::new(-3, 8, 31)), Some(Block::default()));
    let chunks = Chunks::default();
    assert!(!chunks.contains(&ChunkId::new(0, 0, 0)));
    assert!(!chunks.is_solid(&IPos::new(0, 0, 0)));
}
