pub use crate::plants::Plantable;
use crate::roll::roll_below;
use vstd::prelude::*;
use vstd::set_lib::{lemma_int_range, set_int_range};

verus! {

/// Grid coordinate of a tile.
#[derive(Clone, Copy, Debug, PartialEq, Eq, Structural)]
pub struct TilePos {
    pub x: u32,
    pub y: u32,
}

/// The kind of ground a tile is made of.
#[derive(Clone, Copy, Debug, PartialEq, Eq, Structural)]
pub enum TileType {
    TileGrass,
    TileStone,
    TileWood,
}

/// What a newly spawned tile carries: its name, its kind and its position.
pub struct TileBundle {
    pub name: String,
    pub tile_type: TileType,
    pub tile_pos: TilePos,
}

impl TileBundle {
    /// A tile at `tile_pos` of a kind drawn by the weighted draw, named after its kind.
    pub fn random(tile_pos: TilePos) -> (r: TileBundle)
        ensures
            r.tile_pos == tile_pos,
            r.name@ == r.tile_type.name_spec(),
            exists|n: int| 0 <= n < TILE_ROLL_BOUND && r.tile_type == tile_type_of_roll(n),
    {
        let tile_type = TileType::random();
        TileBundle { name: tile_type.name(), tile_type, tile_pos }
    }
}

/// Size of the draw space of the weighted tile draw: a roll is in `0..TILE_ROLL_BOUND`.
pub const TILE_ROLL_BOUND: u32 = 100;

/// The tile kind that a roll in `0..100` stands for: `[0, 50)` is grass,
/// `[50, 70)` stone and `[70, 100)` wood. Anything else falls back to grass.
pub open spec fn tile_type_of_roll(n: int) -> TileType {
    if n < 50 {
        TileType::TileGrass
    } else if n < 70 {
        TileType::TileStone
    } else if n < 100 {
        TileType::TileWood
    } else {
        TileType::TileGrass
    }
}

impl Default for TileType {
    fn default() -> (r: TileType)
        ensures
            r == TileType::TileGrass,
    {
        TileType::TileGrass
    }
}

impl TileType {
    /// Whether a plant may grow on this kind of tile: every kind but stone.
    pub open spec fn plantable(self) -> bool {
        self != TileType::TileStone
    }

    /// The variant's name.
    pub open spec fn name_spec(self) -> Seq<char> {
        match self {
            TileType::TileGrass => "TileGrass"@,
            TileType::TileStone => "TileStone"@,
            TileType::TileWood => "TileWood"@,
        }
    }

    /// The scene asset that renders this kind of tile, named after the variant.
    pub open spec fn asset_path_spec(self) -> Seq<char> {
        match self {
            TileType::TileGrass => "models/TileGrass.glb#Scene0"@,
            TileType::TileStone => "models/TileStone.glb#Scene0"@,
            TileType::TileWood => "models/TileWood.glb#Scene0"@,
        }
    }

    pub fn asset_path(&self) -> (r: &'static str)
        ensures
            r@ == self.asset_path_spec(),
    {
        match self {
            TileType::TileGrass => "models/TileGrass.glb#Scene0",
            TileType::TileStone => "models/TileStone.glb#Scene0",
            TileType::TileWood => "models/TileWood.glb#Scene0",
        }
    }

    pub fn name(&self) -> (r: String)
        ensures
            r@ == self.name_spec(),
    {
        match self {
            TileType::TileGrass => "TileGrass".to_owned(),
            TileType::TileStone => "TileStone".to_owned(),
            TileType::TileWood => "TileWood".to_owned(),
        }
    }

    /// The tile kind for a roll drawn uniformly from `0..TILE_ROLL_BOUND`.
    pub fn from_roll(n: u32) -> (r: TileType)
        ensures
            r == tile_type_of_roll(n as int),
    {
        if n < 50 {
            TileType::TileGrass
        } else if n < 70 {
            TileType::TileStone
        } else if n < 100 {
            TileType::TileWood
        } else {
            TileType::TileGrass
        }
    }

    /// A weighted random tile kind: 50% grass, 20% stone, 30% wood.
    pub fn random() -> (r: TileType)
        ensures
            exists|n: int| 0 <= n < TILE_ROLL_BOUND && r == tile_type_of_roll(n),
    {
        let n = roll_below(TILE_ROLL_BOUND);
        TileType::from_roll(n)
    }

    pub fn is_plantable(&self) -> (r: bool)
        ensures
            r == self.plantable(),
    {
        match self {
            TileType::TileStone => false,
            _ => true,
        }
    }
}

/// The rolls in `0..TILE_ROLL_BOUND` that draw the tile kind `t`.
pub open spec fn rolls_drawing(t: TileType) -> Set<int> {
    Set::new(|n: int| 0 <= n < TILE_ROLL_BOUND && tile_type_of_roll(n) == t)
}

/// The weighted draw is 50/20/30: of the hundred equally likely rolls, fifty
/// draw grass, twenty draw stone and thirty draw wood.
pub proof fn lemma_tile_roll_weights()
    ensures
        rolls_drawing(TileType::TileGrass).len() == 50,
        rolls_drawing(TileType::TileStone).len() == 20,
        rolls_drawing(TileType::TileWood).len() == 30,
{
    assert(rolls_drawing(TileType::TileGrass) =~= set_int_range(0, 50));
    assert(rolls_drawing(TileType::TileStone) =~= set_int_range(50, 70));
    assert(rolls_drawing(TileType::TileWood) =~= set_int_range(70, 100));
    lemma_int_range(0, 50);
    lemma_int_range(50, 70);
    lemma_int_range(70, 100);
}

} // verus!
