use std::collections::HashMap;

use hex_world::chunk_id::ChunkId;
use hex_world::chunks::Chunks;
use hex_world::direction::{Direction1D, Direction2D};
use hex_world::ids::{
    AppState, BackgroundMusic, DayNightInput, InputAction, MovementInput, MusicId, OriginLinesDisplay,
    SfxId, SfxMonster,
};
use hex_world::loading::{chunks_around, missing_from, needs_load_cycle, ChunkLoader};
use hex_world::meta::{FileStructure, Manifest, MetaAsset, ModOrder};

#[test]
fn direction_from_input() {
    assert_eq!(Direction1D::from_input(true, false), Direction1D::Negative);
    assert_eq!(Direction1D::from_input(false, true), Direction1D::Positive);
    assert_eq!(Direction1D::from_input(true, true), Direction1D::Neutral);
    assert_eq!(Direction1D::from_input(false, false), Direction1D::Neutral);
    let d = Direction2D::from_input(true, false, false, true);
    assert_eq!(d, Direction2D::from(Direction1D::Negative, Direction1D::Positive));
    assert!(!d.is_neutral());
    assert!(Direction2D::from_input(true, true, false, false).is_neutral());
    assert_eq!(Direction1D::default(), Direction1D::Neutral);
}

#[test]
fn direction_predicates() {
    assert!(Direction1D::Negative.is_opposite(&Direction1D::Positive));
    assert!(Direction1D::Positive.is_opposite(&Direction1D::Negative));
    assert!(!Direction1D::Positive.is_opposite(&Direction1D::Positive));
    assert!(!Direction1D::Neutral.is_opposite(&Direction1D::Negative));
    assert!(Direction1D::Positive.is_positive() && !Direction1D::Positive.is_negative() && !Direction1D::Positive.is_neutral());
    assert!(Direction1D::Negative.is_negative());
    assert!(Direction1D::Neutral.is_neutral());
    assert_eq!(Direction1D::Positive.signum_i(), 1);
    assert_eq!(Direction1D::Negative.signum_i(), -1);
    assert_eq!(Direction1D::Neutral.signum_i(), 0);
    assert_eq!(Direction1D::Positive.not(), Direction1D::Negative);
    assert_eq!(Direction1D::Neutral.not(), Direction1D::Neutral);
    let a = Direction2D::from(Direction1D::Positive, Direction1D::Neutral);
    let b = Direction2D::from(Direction1D::Negative, Direction1D::Positive);
    assert!(a.is_opposite(&b));
    assert!(!a.is_opposite(&Direction2D::from(Direction1D::Neutral, Direction1D::Negative)));
}

#[test]
fn meta_asset_accessors() {
    let mut order = MetaAsset::ModOrder(ModOrder { mods: vec!["core".to_string()] });
    assert_eq!(order.as_mod_order().mods, vec!["core".to_string()]);
    order.as_mod_order_mut().mods.push("extra".to_string());
    assert_eq!(order.as_mod_order().mods.len(), 2);
    let files = MetaAsset::FileStructure(FileStructure {
        configs: vec!["world.config.ron".to_string()],
        sfx: HashMap::new(),
        music: HashMap::new(),
    });
    assert_eq!(files.as_file_structure().configs.len(), 1);
    let manifest = MetaAsset::Manifest(Manifest {
        name: "core".to_string(),
        description: "base game".to_string(),
        load_order_hint: -3,
    });
    assert_eq!(manifest.as_manifest().load_order_hint, -3);
}

#[test]
fn ids_name_group_and_item() {
    assert_eq!(SfxMonster::Aggro.group_id(), "SfxMonster");
    assert_eq!(SfxMonster::Death.item_id(), "Death");
    assert_eq!(BackgroundMusic::HexagonalCubes.group_id(), "BackgroundMusic");
    assert_eq!(BackgroundMusic::ExistentialHexMan.item_id(), "ExistentialHexMan");
    assert_eq!(MovementInput::Sprint.group_id(), "MovementInput");
    assert_eq!(MovementInput::Backward.item_id(), "Backward");
    assert_eq!(DayNightInput::SetTimeBack.group_id(), "DayNightInput");
    assert_eq!(DayNightInput::SpeedUpTime.item_id(), "SpeedUpTime");
    assert_eq!(AppState::default(), AppState::Loading);
    assert_eq!(OriginLinesDisplay::default(), OriginLinesDisplay::Positive);
}

#[test]
fn loader_radii_are_ordered() {
    assert_eq!(ChunkLoader::new(5, 3), ChunkLoader { radius_min: 3, radius_max: 3 });
    assert_eq!(ChunkLoader::new(1, 3), ChunkLoader { radius_min: 1, radius_max: 3 });
}

#[test]
fn load_sets_are_nested_spirals() {
    let loader = ChunkLoader::new(1, 2);
    let center = ChunkId::new(4, -2, 0);
    let sets = loader.load_sets(&center);
    assert_eq!(sets.must_be_rendered.len(), 7);
    assert_eq!(sets.may_be_rendered.len(), 19);
    assert_eq!(sets.may_be_loaded.len(), 37);
    assert_eq!(sets.must_be_rendered[0], center);
    for id in sets.must_be_rendered.iter() {
        assert!(sets.may_be_rendered.contains(id));
        assert!(ChunkId::distance(id, &center) <= 1);
    }
    for id in sets.may_be_rendered.iter() {
        assert!(sets.may_be_loaded.contains(id));
    }
    for id in sets.may_be_loaded.iter() {
        assert!(ChunkId::distance(id, &center) <= 3);
        assert_eq!(id.z(), 0);
    }
}

#[test]
fn load_cycle_bookkeeping() {
    let center = ChunkId::new(0, 0, 0);
    let around = chunks_around(&center, 1);
    let rendered = vec![center, ChunkId::new(1, 0, 0), ChunkId::new(9, 9, 0)];
    assert!(needs_load_cycle(&around, &rendered));
    assert!(!needs_load_cycle(&vec![center], &rendered));
    let missing = missing_from(&around, &rendered);
    assert_eq!(missing.len(), 5);
    assert!(!missing.contains(&center));
    let despawn = missing_from(&rendered, &around);
    assert_eq!(despawn, vec![ChunkId::new(9, 9, 0)]);
    let mut chunks = Chunks::new();
    let levels = vec![1u32; 289];
    let biomes = vec![hex_world::block::BiomeType::Forest; 289];
    chunks.generate_chunk(center, &levels, &biomes);
    assert!(chunks.contains(&center));
    assert!(!chunks.contains(&ChunkId::new(1, 0, 0)));
}
