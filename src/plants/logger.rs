use crate::plants::Plant;
use crate::tilemap::pick::ClickTile;
use crate::world::{EntityRecord, World};
use vstd::prelude::*;

verus! {

/// What a tile click found on its tile, for the diagnostic log.
#[derive(Clone, Copy, Debug, PartialEq, Eq, Structural)]
pub enum TileClickKind {
    /// A tile on which nothing may grow.
    NonPlantable,
    /// A plantable tile with nothing on it yet.
    Plantable,
    /// A plantable tile on which the given plant already grows.
    AlreadyPlanted(Plant),
}

/// The kind of a tile click, or `None` where the clicked entity is no tile.
pub open spec fn click_kind(s: Seq<EntityRecord>, click: ClickTile) -> Option<TileClickKind> {
    if 0 <= click.entity < s.len() {
        let rec = s[click.entity as int];
        match rec.tile {
            None => None,
            Some(t) => if !t.tile_type.plantable() {
                Some(TileClickKind::NonPlantable)
            } else {
                match rec.plant {
                    Some(p) => Some(TileClickKind::AlreadyPlanted(p)),
                    None => Some(TileClickKind::Plantable),
                }
            },
        }
    } else {
        None
    }
}

impl TileClickKind {
    pub open spec fn label_spec(self) -> Seq<char> {
        match self {
            TileClickKind::NonPlantable => "NON-PLANTABLE"@,
            TileClickKind::Plantable => "PLANTABLE"@,
            TileClickKind::AlreadyPlanted(_) => "ALREADY PLANTED"@,
        }
    }

    /// The word that the log line of such a click carries.
    pub fn label(&self) -> (r: &'static str)
        ensures
            r@ == self.label_spec(),
    {
        match self {
            TileClickKind::NonPlantable => "NON-PLANTABLE",
            TileClickKind::Plantable => "PLANTABLE",
            TileClickKind::AlreadyPlanted(_) => "ALREADY PLANTED",
        }
    }
}

/// Tells a click on a non-plantable tile, on a bare plantable tile and on a
/// planted tile apart.
pub fn classify_tile_click(world: &World, click: &ClickTile) -> (r: Option<TileClickKind>)
    ensures
        r == click_kind(world@, *click),
{
    match world.get(click.entity) {
        None => None,
        Some(rec) => match rec.tile {
            None => None,
            Some(t) => if !t.tile_type.is_plantable() {
                Some(TileClickKind::NonPlantable)
            } else {
                match rec.plant {
                    Some(p) => Some(TileClickKind::AlreadyPlanted(p)),
                    None => Some(TileClickKind::Plantable),
                }
            },
        },
    }
}

} // verus!
