use tycoon::plants::logger::{classify_tile_click, TileClickKind};
use tycoon::plants::{can_plant, plant_on_click, plant_on_primary_click, Plant};
use tycoon::tilemap::pick::{click_mesh_to_tile, ClickMesh, ClickTile, PointerButton};
use tycoon::tilemap::tile_type::{TilePos, TileType};
use tycoon::world::{Tile, World};

/// A tile under a scene root under a node under a mesh; returns the scene,
/// the tile entity and the mesh entity.
fn one_tile(tile_type: TileType, x: u32, y: u32) -> (World, usize, usize) {
    let mut world = World::new();
    let tile = world.spawn(None, Some(Tile { tile_type, tile_pos: TilePos { x, y } }));
    let scene_root = world.spawn(Some(tile), None);
    let node = world.spawn(Some(scene_root), None);
    let mesh = world.spawn(Some(node), None);
    (world, tile, mesh)
}

fn click(tile: usize, tile_type: TileType, button: PointerButton) -> ClickTile {
    ClickTile { entity: tile, tile_pos: TilePos { x: 0, y: 0 }, tile_type, button }
}

#[test]
fn plant_rolls_map_to_kinds() {
    assert_eq!(Plant::from_roll(0), Plant::PlantTree);
    assert_eq!(Plant::from_roll(1), Plant::PlantShrub);
    assert_eq!(Plant::from_roll(2), Plant::PlantFlower);
    assert_eq!(Plant::from_roll(3), Plant::PlantFlower);
}

#[test]
fn random_plant_draws_every_kind() {
    let mut seen = [false; 3];
    for _ in 0..1000 {
        match Plant::random() {
            Plant::PlantTree => seen[0] = true,
            Plant::PlantShrub => seen[1] = true,
            Plant::PlantFlower => seen[2] = true,
        }
    }
    assert_eq!(seen, [true, true, true]);
}

#[test]
fn plant_names_and_assets() {
    assert_eq!(Plant::PlantTree.name(), "PlantTree");
    assert_eq!(Plant::PlantShrub.name(), "PlantShrub");
    assert_eq!(Plant::PlantFlower.name(), "PlantFlower");
    assert_eq!(Plant::PlantTree.asset_path(), "models/PlantTree/PlantTree.gltf#Scene0");
    assert_eq!(Plant::PlantFlower.asset_path(), "models/PlantFlower/PlantFlower.gltf#Scene0");
    assert_eq!(Plant::default(), Plant::PlantFlower);
}

#[test]
fn stone_click_never_plants() {
    let (mut world, tile, mesh) = one_tile(TileType::TileStone, 1, 1);
    let raw = vec![ClickMesh { button: PointerButton::Primary, entity: mesh }];
    let clicks = click_mesh_to_tile(&world, &raw);
    assert_eq!(clicks.len(), 1);
    assert_eq!(clicks[0].tile_type, TileType::TileStone);
    assert!(!can_plant(&world, &clicks[0]));
    plant_on_primary_click(&mut world, &clicks);
    assert_eq!(world.get(tile).unwrap().plant, None);
    assert!(!plant_on_click(&mut world, &clicks[0], Plant::PlantTree));
    assert_eq!(world.get(tile).unwrap().plant, None);
}

#[test]
fn second_click_on_same_tile_plants_nothing() {
    let (mut world, tile, _) = one_tile(TileType::TileGrass, 2, 3);
    let c = click(tile, TileType::TileGrass, PointerButton::Primary);
    assert!(plant_on_click(&mut world, &c, Plant::PlantShrub));
    assert_eq!(world.get(tile).unwrap().plant, Some(Plant::PlantShrub));
    assert!(!plant_on_click(&mut world, &c, Plant::PlantTree));
    assert_eq!(world.get(tile).unwrap().plant, Some(Plant::PlantShrub));
}

#[test]
fn two_primary_clicks_in_one_step_plant_once() {
    let (mut world, tile, _) = one_tile(TileType::TileWood, 0, 0);
    let c = click(tile, TileType::TileWood, PointerButton::Primary);
    plant_on_primary_click(&mut world, &vec![c, c]);
    let first = world.get(tile).unwrap().plant;
    assert!(first.is_some());
    plant_on_primary_click(&mut world, &vec![c]);
    assert_eq!(world.get(tile).unwrap().plant, first);
}

#[test]
fn secondary_click_does_not_plant() {
    let (mut world, tile, _) = one_tile(TileType::TileGrass, 0, 0);
    let c = click(tile, TileType::TileGrass, PointerButton::Secondary);
    plant_on_primary_click(&mut world, &vec![c]);
    assert_eq!(world.get(tile).unwrap().plant, None);
    let m = click(tile, TileType::TileGrass, PointerButton::Middle);
    assert!(!plant_on_click(&mut world, &m, Plant::PlantTree));
}

#[test]
fn click_on_entity_that_is_no_tile_does_not_plant() {
    let (mut world, _, mesh) = one_tile(TileType::TileGrass, 0, 0);
    let c = click(mesh, TileType::TileGrass, PointerButton::Primary);
    assert!(!plant_on_click(&mut world, &c, Plant::PlantTree));
    let missing = click(99, TileType::TileGrass, PointerButton::Primary);
    assert!(!plant_on_click(&mut world, &missing, Plant::PlantTree));
    assert_eq!(world.get(mesh).unwrap().plant, None);
}

#[test]
fn classify_tells_the_three_log_cases_apart() {
    let (mut world, grass, _) = one_tile(TileType::TileGrass, 0, 0);
    let stone = world.spawn(None, Some(Tile { tile_type: TileType::TileStone, tile_pos: TilePos { x: 1, y: 0 } }));
    let c = click(grass, TileType::TileGrass, PointerButton::Primary);
    assert_eq!(classify_tile_click(&world, &c), Some(TileClickKind::Plantable));
    assert!(plant_on_click(&mut world, &c, Plant::PlantFlower));
    assert_eq!(
        classify_tile_click(&world, &c),
        Some(TileClickKind::AlreadyPlanted(Plant::PlantFlower))
    );
    let s = click(stone, TileType::TileStone, PointerButton::Primary);
    assert_eq!(classify_tile_click(&world, &s), Some(TileClickKind::NonPlantable));
    let none = click(grass + 1, TileType::TileGrass, PointerButton::Primary);
    assert_eq!(classify_tile_click(&world, &none), None);
    assert_eq!(TileClickKind::NonPlantable.label(), "NON-PLANTABLE");
    assert_eq!(TileClickKind::Plantable.label(), "PLANTABLE");
    assert_eq!(TileClickKind::AlreadyPlanted(Plant::PlantTree).label(), "ALREADY PLANTED");
}
