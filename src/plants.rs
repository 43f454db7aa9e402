pub mod logger;

use crate::roll::roll_below;
use crate::tilemap::pick::{resolve_click, ClickMesh, ClickTile, PointerButton};
use crate::tilemap::tile_type::TileType;
use crate::world::{world_wf, EntityRecord, World};
use vstd::prelude::*;

verus! {

/// Marks a tile on which a plant may grow.
pub struct Plantable;

/// A plant that grows on a tile.
#[derive(Clone, Copy, Debug, PartialEq, Eq, Structural)]
pub enum Plant {
    PlantTree,
    PlantShrub,
    PlantFlower,
}

/// Number of plant kinds: a plant roll is in `0..PLANT_ROLL_BOUND`.
pub const PLANT_ROLL_BOUND: u32 = 3;

/// The plant kind that a roll in `0..3` stands for; anything else is a flower.
pub open spec fn plant_of_roll(n: int) -> Plant {
    if n == 0 {
        Plant::PlantTree
    } else if n == 1 {
        Plant::PlantShrub
    } else {
        Plant::PlantFlower
    }
}

impl Default for Plant {
    fn default() -> (r: Plant)
        ensures
            r == Plant::PlantFlower,
    {
        Plant::PlantFlower
    }
}

impl Plant {
    /// The variant's name.
    pub open spec fn name_spec(self) -> Seq<char> {
        match self {
            Plant::PlantTree => "PlantTree"@,
            Plant::PlantShrub => "PlantShrub"@,
            Plant::PlantFlower => "PlantFlower"@,
        }
    }

    /// The scene asset that renders this plant, named after the variant.
    pub open spec fn asset_path_spec(self) -> Seq<char> {
        match self {
            Plant::PlantTree => "models/PlantTree/PlantTree.gltf#Scene0"@,
            Plant::PlantShrub => "models/PlantShrub/PlantShrub.gltf#Scene0"@,
            Plant::PlantFlower => "models/PlantFlower/PlantFlower.gltf#Scene0"@,
        }
    }

    pub fn name(&self) -> (r: String)
        ensures
            r@ == self.name_spec(),
    {
        match self {
            Plant::PlantTree => "PlantTree".to_owned(),
            Plant::PlantShrub => "PlantShrub".to_owned(),
            Plant::PlantFlower => "PlantFlower".to_owned(),
        }
    }

    pub fn asset_path(&self) -> (r: &'static str)
        ensures
            r@ == self.asset_path_spec(),
    {
        match self {
            Plant::PlantTree => "models/PlantTree/PlantTree.gltf#Scene0",
            Plant::PlantShrub => "models/PlantShrub/PlantShrub.gltf#Scene0",
            Plant::PlantFlower => "models/PlantFlower/PlantFlower.gltf#Scene0",
        }
    }

    /// The plant kind for a roll drawn uniformly from `0..PLANT_ROLL_BOUND`.
    pub fn from_roll(n: u32) -> (r: Plant)
        ensures
            r == plant_of_roll(n as int),
    {
        if n == 0 {
            Plant::PlantTree
        } else if n == 1 {
            Plant::PlantShrub
        } else {
            Plant::PlantFlower
        }
    }

    /// A plant kind drawn uniformly.
    pub fn random() -> (r: Plant)
        ensures
            exists|n: int| 0 <= n < PLANT_ROLL_BOUND && r == plant_of_roll(n),
    {
        let n = roll_below(PLANT_ROLL_BOUND);
        Plant::from_roll(n)
    }
}

/// Each plant kind is drawn by exactly one of the three equally likely rolls.
pub proof fn lemma_plant_roll_uniform(p: Plant)
    ensures
        Set::new(|n: int| 0 <= n < PLANT_ROLL_BOUND && plant_of_roll(n) == p).len() == 1,
{
    let k: int = match p {
        Plant::PlantTree => 0,
        Plant::PlantShrub => 1,
        Plant::PlantFlower => 2,
    };
    assert(Set::new(|n: int| 0 <= n < PLANT_ROLL_BOUND && plant_of_roll(n) == p) =~= set![k]);
}

} // verus!

verus! {

/// A tile click plants on its tile when the button is the primary one, the
/// entity is a tile of a plantable kind, and nothing grows on it yet.
pub open spec fn should_plant(s: Seq<EntityRecord>, click: ClickTile) -> bool {
    &&& click.button == PointerButton::Primary
    &&& 0 <= click.entity < s.len()
    &&& s[click.entity as int].tile matches Some(t) && t.tile_type.plantable()
    &&& s[click.entity as int].plant is None
}

/// The scene after a tile click, where `plant` is the kind that grows if the
/// click plants.
pub open spec fn plant_step(s: Seq<EntityRecord>, click: ClickTile, plant: Plant) -> Seq<
    EntityRecord,
> {
    if should_plant(s, click) {
        s.update(click.entity as int, EntityRecord { plant: Some(plant), ..s[click.entity as int] })
    } else {
        s
    }
}

/// Whether the tile click plants on its tile.
pub fn can_plant(world: &World, click: &ClickTile) -> (r: bool)
    ensures
        r == should_plant(world@, *click),
{
    if click.button != PointerButton::Primary {
        return false;
    }
    match world.get(click.entity) {
        Some(rec) => match rec.tile {
            Some(t) => t.tile_type.is_plantable() && rec.plant.is_none(),
            None => false,
        },
        None => false,
    }
}

/// Applies one tile click with a given plant kind; returns whether it planted.
pub fn plant_on_click(world: &mut World, click: &ClickTile, plant: Plant) -> (r: bool)
    requires
        old(world).wf(),
    ensures
        r == should_plant(old(world)@, *click),
        final(world)@ == plant_step(old(world)@, *click, plant),
        final(world).wf(),
{
    if can_plant(world, click) {
        world.set_plant(click.entity, plant);
        true
    } else {
        false
    }
}

/// Plants a randomly drawn kind on every tile that a primary click reaches
/// while it is plantable and bare. Other clicks change nothing.
pub fn plant_on_primary_click(world: &mut World, tile_clicks: &Vec<ClickTile>)
    requires
        old(world).wf(),
    ensures
        final(world).wf(),
        final(world)@.len() == old(world)@.len(),
        forall|e: int|
            0 <= e < old(world)@.len() ==> {
                &&& #[trigger] final(world)@[e].parent == old(world)@[e].parent
                &&& final(world)@[e].tile == old(world)@[e].tile
                &&& (old(world)@[e].plant is Some ==> final(world)@[e].plant == old(
                    world,
                )@[e].plant)
                &&& (old(world)@[e].plant is None ==> (final(world)@[e].plant is Some <==> exists|
                    j: int,
                |
                    0 <= j < tile_clicks@.len() && tile_clicks@[j].entity == e && should_plant(
                        old(world)@,
                        #[trigger] tile_clicks@[j],
                    )))
            },
{
    let ghost start = world@;
    let mut i: usize = 0;
    while i < tile_clicks.len()
        invariant
            i <= tile_clicks@.len(),
            world.wf(),
            world@.len() == start.len(),
            world_wf(start),
            forall|e: int|
                0 <= e < start.len() ==> {
                    &&& #[trigger] world@[e].parent == start[e].parent
                    &&& world@[e].tile == start[e].tile
                    &&& (start[e].plant is Some ==> world@[e].plant == start[e].plant)
                    &&& (start[e].plant is None ==> (world@[e].plant is Some <==> exists|j: int|
                        0 <= j < i && tile_clicks@[j].entity == e && should_plant(
                            start,
                            #[trigger] tile_clicks@[j],
                        )))
                },
        decreases tile_clicks@.len() - i,
    {
        let click = tile_clicks[i];
        let ghost before = world@;
        if can_plant(world, &click) {
            let plant = Plant::random();
            plant_on_click(world, &click, plant);
        }
        proof {
            assert(tile_clicks@[i as int] == click);
            assert forall|e: int| 0 <= e < start.len() implies {
                &&& #[trigger] world@[e].parent == start[e].parent
                &&& world@[e].tile == start[e].tile
                &&& (start[e].plant is Some ==> world@[e].plant == start[e].plant)
                &&& (start[e].plant is None ==> (world@[e].plant is Some <==> exists|j: int|
                    0 <= j < i + 1 && tile_clicks@[j].entity == e && should_plant(
                        start,
                        #[trigger] tile_clicks@[j],
                    )))
            } by {
                if start[e].plant is None {
                    if world@[e].plant is Some && before[e].plant is None {
                        assert(tile_clicks@[i as int].entity == e && should_plant(
                            start,
                            tile_clicks@[i as int],
                        ));
                    }
                    if exists|j: int|
                        0 <= j < i + 1 && tile_clicks@[j].entity == e && should_plant(
                            start,
                            #[trigger] tile_clicks@[j],
                        ) {
                        let j = choose|j: int|
                            0 <= j < i + 1 && tile_clicks@[j].entity == e && should_plant(
                                start,
                                #[trigger] tile_clicks@[j],
                            );
                        if j < i {
                            assert(before[e].plant is Some);
                        }
                    }
                }
            }
        }
        i = i + 1;
    }
}

/// A raw click that resolves to a stone tile never makes anything grow: the
/// tile click it yields, whatever its button and whatever kind was drawn,
/// leaves the scene as it was.
pub proof fn lemma_stone_is_never_planted(
    s: Seq<EntityRecord>,
    mesh_click: ClickMesh,
    button: PointerButton,
    plant: Plant,
)
    requires
        resolve_click(s, mesh_click) matches Some(c) && c.tile_type == TileType::TileStone,
    ensures
        resolve_click(s, mesh_click) matches Some(c) && plant_step(
            s,
            ClickTile { button, ..c },
            plant,
        ) == s,
{
}

/// Two primary clicks in a row on a plantable, bare tile plant exactly once:
/// the first puts its plant on the tile, the second changes nothing.
pub proof fn lemma_second_click_plants_nothing(
    s: Seq<EntityRecord>,
    first: ClickTile,
    second: ClickTile,
    p1: Plant,
    p2: Plant,
)
    requires
        first.button == PointerButton::Primary,
        second.button == PointerButton::Primary,
        second.entity == first.entity,
        0 <= first.entity < s.len(),
        s[first.entity as int].tile matches Some(t) && t.tile_type.plantable(),
        s[first.entity as int].plant is None,
    ensures
        plant_step(s, first, p1) == s.update(
            first.entity as int,
            EntityRecord { plant: Some(p1), ..s[first.entity as int] },
        ),
        plant_step(plant_step(s, first, p1), second, p2) == plant_step(s, first, p1),
{
}

} // verus!
