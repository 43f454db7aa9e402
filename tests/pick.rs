use tycoon::tilemap::pick::{click_mesh_to_tile, click_to_tile, ClickMesh, ClickTile, PointerButton};
use tycoon::tilemap::tile_type::{TilePos, TileType};
use tycoon::world::{Tile, World};

#[test]
fn click_on_mesh_resolves_to_its_tile() {
    let mut world = World::new();
    let tile = world.spawn(
        None,
        Some(Tile { tile_type: TileType::TileGrass, tile_pos: TilePos { x: 2, y: 3 } }),
    );
    let scene_root = world.spawn(Some(tile), None);
    let node = world.spawn(Some(scene_root), None);
    let mesh = world.spawn(Some(node), None);
    let raw = vec![ClickMesh { button: PointerButton::Primary, entity: mesh }];
    let clicks = click_mesh_to_tile(&world, &raw);
    assert_eq!(
        clicks,
        vec![ClickTile {
            entity: tile,
            tile_pos: TilePos { x: 2, y: 3 },
            tile_type: TileType::TileGrass,
            button: PointerButton::Primary,
        }]
    );
}

#[test]
fn short_ancestor_chain_resolves_to_nothing() {
    let mut world = World::new();
    let tile = world.spawn(
        None,
        Some(Tile { tile_type: TileType::TileGrass, tile_pos: TilePos { x: 0, y: 0 } }),
    );
    let scene_root = world.spawn(Some(tile), None);
    let node = world.spawn(Some(scene_root), None);
    let raw = vec![
        ClickMesh { button: PointerButton::Primary, entity: node },
        ClickMesh { button: PointerButton::Primary, entity: scene_root },
        ClickMesh { button: PointerButton::Primary, entity: tile },
    ];
    assert!(click_mesh_to_tile(&world, &raw).is_empty());
}

#[test]
fn ancestor_without_tile_data_resolves_to_nothing() {
    let mut world = World::new();
    let tile = world.spawn(
        None,
        Some(Tile { tile_type: TileType::TileWood, tile_pos: TilePos { x: 0, y: 0 } }),
    );
    let scene_root = world.spawn(Some(tile), None);
    let node = world.spawn(Some(scene_root), None);
    let inner = world.spawn(Some(node), None);
    let mesh = world.spawn(Some(inner), None);
    let raw = ClickMesh { button: PointerButton::Primary, entity: mesh };
    assert_eq!(click_to_tile(&world, &raw), None);
    let missing = ClickMesh { button: PointerButton::Primary, entity: 1000 };
    assert_eq!(click_to_tile(&world, &missing), None);
    assert_eq!(world.ancestor_at(mesh, 0), Some(inner));
    assert_eq!(world.ancestor_at(mesh, 3), Some(tile));
    assert_eq!(world.ancestor_at(mesh, 4), None);
}

#[test]
fn one_tile_click_per_resolved_raw_click_in_order() {
    let mut world = World::new();
    let root = world.spawn(None, None);
    let mut meshes = Vec::new();
    let mut tiles = Vec::new();
    for (i, kind) in [TileType::TileStone, TileType::TileWood].iter().enumerate() {
        let tile = world.spawn(
            Some(root),
            Some(Tile { tile_type: *kind, tile_pos: TilePos { x: i as u32, y: 0 } }),
        );
        let scene_root = world.spawn(Some(tile), None);
        let node = world.spawn(Some(scene_root), None);
        meshes.push(world.spawn(Some(node), None));
        tiles.push(tile);
    }
    let raw = vec![
        ClickMesh { button: PointerButton::Secondary, entity: meshes[1] },
        ClickMesh { button: PointerButton::Primary, entity: root },
        ClickMesh { button: PointerButton::Middle, entity: meshes[0] },
        ClickMesh { button: PointerButton::Primary, entity: meshes[1] },
    ];
    let clicks = click_mesh_to_tile(&world, &raw);
    assert_eq!(clicks.len(), 3);
    assert_eq!(clicks[0].entity, tiles[1]);
    assert_eq!(clicks[0].button, PointerButton::Secondary);
    assert_eq!(clicks[0].tile_type, TileType::TileWood);
    assert_eq!(clicks[1].entity, tiles[0]);
    assert_eq!(clicks[1].button, PointerButton::Middle);
    assert_eq!(clicks[1].tile_pos, TilePos { x: 0, y: 0 });
    assert_eq!(clicks[2].entity, tiles[1]);
    assert_eq!(clicks[2].button, PointerButton::Primary);
}
