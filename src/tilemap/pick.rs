use crate::tilemap::tile_type::{TilePos, TileType};
use crate::world::{ancestor, EntityRecord, World};
use vstd::prelude::*;

verus! {

/// The mouse button of a click.
#[derive(Clone, Copy, Debug, PartialEq, Eq, Structural)]
pub enum PointerButton {
    Primary,
    Secondary,
    Middle,
}

/// A raw click on a rendered mesh.
#[derive(Clone, Copy, Debug, PartialEq, Eq, Structural)]
pub struct ClickMesh {
    pub button: PointerButton,
    pub entity: usize,
}

/// A click resolved to the tile that owns the clicked mesh.
#[derive(Clone, Copy, Debug, PartialEq, Eq, Structural)]
pub struct ClickTile {
    pub entity: usize,
    pub tile_pos: TilePos,
    pub tile_type: TileType,
    pub button: PointerButton,
}

/// How far above a clicked mesh its tile sits, counted as in `ancestor`: the
/// mesh hangs under a scene node, under the scene root, under the tile.
pub const TILE_ANCESTOR_DEPTH: usize = 2;

/// The tile click that a raw click stands for: the ancestor at
/// `TILE_ANCESTOR_DEPTH` above the clicked mesh, if there is one and it is a
/// tile, with its position, its kind and the click's button.
pub open spec fn resolve_click(s: Seq<EntityRecord>, click: ClickMesh) -> Option<ClickTile> {
    match ancestor(s, click.entity as int, TILE_ANCESTOR_DEPTH as nat) {
        Some(a) => if 0 <= a < s.len() {
            match s[a as int].tile {
                Some(t) => Some(
                    ClickTile {
                        entity: a,
                        tile_pos: t.tile_pos,
                        tile_type: t.tile_type,
                        button: click.button,
                    },
                ),
                None => None,
            }
        } else {
            None
        },
        None => None,
    }
}

/// The tile clicks of a run of raw clicks, in order; a click that does not
/// resolve to a tile leaves nothing.
pub open spec fn resolve_clicks(s: Seq<EntityRecord>, clicks: Seq<ClickMesh>) -> Seq<ClickTile>
    decreases clicks.len(),
{
    if clicks.len() == 0 {
        Seq::empty()
    } else {
        let rest = resolve_clicks(s, clicks.drop_last());
        match resolve_click(s, clicks.last()) {
            Some(c) => rest.push(c),
            None => rest,
        }
    }
}

/// Resolves one raw click.
pub fn click_to_tile(world: &World, click: &ClickMesh) -> (r: Option<ClickTile>)
    ensures
        r == resolve_click(world@, *click),
{
    match world.ancestor_at(click.entity, TILE_ANCESTOR_DEPTH) {
        Some(a) => match world.get(a) {
            Some(rec) => match rec.tile {
                Some(t) => Some(
                    ClickTile {
                        entity: a,
                        tile_pos: t.tile_pos,
                        tile_type: t.tile_type,
                        button: click.button,
                    },
                ),
                None => None,
            },
            None => None,
        },
        None => None,
    }
}

/// Turns raw mesh clicks into tile clicks: at most one per raw click, in the
/// order of the raw clicks.
pub fn click_mesh_to_tile(world: &World, mesh_clicks: &Vec<ClickMesh>) -> (r: Vec<ClickTile>)
    ensures
        r@ == resolve_clicks(world@, mesh_clicks@),
{
    let mut tile_clicks: Vec<ClickTile> = Vec::new();
    let mut i: usize = 0;
    while i < mesh_clicks.len()
        invariant
            i <= mesh_clicks@.len(),
            tile_clicks@ == resolve_clicks(world@, mesh_clicks@.take(i as int)),
        decreases mesh_clicks@.len() - i,
    {
        proof {
            let next = mesh_clicks@.take(i as int + 1);
            assert(next.drop_last() =~= mesh_clicks@.take(i as int));
            assert(next.last() == mesh_clicks@[i as int]);
        }
        if let Some(c) = click_to_tile(world, &mesh_clicks[i]) {
            tile_clicks.push(c);
        }
        i = i + 1;
    }
    assert(mesh_clicks@.take(mesh_clicks@.len() as int) =~= mesh_clicks@);
    tile_clicks
}

/// A raw click on an entity with fewer than three ancestors above it resolves
/// to nothing.
pub proof fn lemma_short_chain_resolves_to_nothing(s: Seq<EntityRecord>, click: ClickMesh)
    requires
        ancestor(s, click.entity as int, TILE_ANCESTOR_DEPTH as nat) is None,
    ensures
        resolve_click(s, click) is None,
        resolve_clicks(s, seq![click]) == Seq::<ClickTile>::empty(),
{
    assert(seq![click].drop_last() =~= Seq::<ClickMesh>::empty());
    assert(resolve_clicks(s, Seq::<ClickMesh>::empty()) == Seq::<ClickTile>::empty());
}


} // verus!
