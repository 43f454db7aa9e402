use crate::plants::Plant;
use crate::tilemap::tile_type::{TilePos, TileType};
use vstd::prelude::*;

verus! {

/// The tile data that a tile entity carries: its kind and its grid position.
#[derive(Clone, Copy, Debug, PartialEq, Eq, Structural)]
pub struct Tile {
    pub tile_type: TileType,
    pub tile_pos: TilePos,
}

/// What one entity of the scene holds: its parent in the scene hierarchy, its
/// tile data if it is a tile, and the plant growing on it, if any.
#[derive(Clone, Copy, Debug, PartialEq, Eq, Structural)]
pub struct EntityRecord {
    pub parent: Option<usize>,
    pub tile: Option<Tile>,
    pub plant: Option<Plant>,
}

/// The entities of a scene, each named by its index.
pub struct World {
    pub entities: Vec<EntityRecord>,
}

impl View for World {
    type V = Seq<EntityRecord>;

    open spec fn view(&self) -> Seq<EntityRecord> {
        self.entities@
    }
}

/// Every parent is an entity of the scene, and a plant grows only on a tile
/// whose kind is plantable.
pub open spec fn world_wf(s: Seq<EntityRecord>) -> bool {
    forall|i: int|
        0 <= i < s.len() ==> {
            &&& (s[i].parent matches Some(p) ==> p < s.len())
            &&& (s[i].plant is Some ==> (s[i].tile matches Some(t) && t.tile_type.plantable()))
        }
}

/// The ancestor of entity `e` that is `depth + 1` parent links above it: depth 0
/// is the parent, depth 1 the grandparent, and so on.
pub open spec fn ancestor(s: Seq<EntityRecord>, e: int, depth: nat) -> Option<usize>
    decreases depth,
{
    if 0 <= e < s.len() {
        match s[e].parent {
            None => None,
            Some(p) => if depth == 0 {
                Some(p)
            } else {
                ancestor(s, p as int, (depth - 1) as nat)
            },
        }
    } else {
        None
    }
}

impl World {
    pub fn new() -> (r: World)
        ensures
            r@ == Seq::<EntityRecord>::empty(),
            world_wf(r@),
    {
        World { entities: Vec::new() }
    }

    pub open spec fn wf(&self) -> bool {
        world_wf(self@)
    }

    pub fn len(&self) -> (r: usize)
        ensures
            r == self@.len(),
    {
        self.entities.len()
    }

    /// Adds an entity with no plant, under `parent`, carrying `tile`; returns its index.
    pub fn spawn(&mut self, parent: Option<usize>, tile: Option<Tile>) -> (r: usize)
        requires
            old(self).wf(),
            parent matches Some(p) ==> p < old(self)@.len(),
        ensures
            final(self).wf(),
            r == old(self)@.len(),
            final(self)@ == old(self)@.push(EntityRecord { parent, tile, plant: None }),
    {
        let r = self.entities.len();
        self.entities.push(EntityRecord { parent, tile, plant: None });
        r
    }

    /// The entity's record, or `None` where no entity has that index.
    pub fn get(&self, e: usize) -> (r: Option<EntityRecord>)
        ensures
            r == (if e < self@.len() { Some(self@[e as int]) } else { None::<EntityRecord> }),
    {
        if e < self.entities.len() {
            Some(self.entities[e])
        } else {
            None
        }
    }

    /// Puts `plant` on entity `e`, leaving the rest of the scene as it was.
    pub fn set_plant(&mut self, e: usize, plant: Plant)
        requires
            e < old(self)@.len(),
        ensures
            final(self)@ == old(self)@.update(
                e as int,
                EntityRecord { plant: Some(plant), ..old(self)@[e as int] },
            ),
    {
        let rec = self.entities[e];
        self.entities.set(e, EntityRecord { plant: Some(plant), ..rec });
    }

    /// The ancestor `depth + 1` parent links above `e`, if the chain is that long.
    pub fn ancestor_at(&self, e: usize, depth: usize) -> (r: Option<usize>)
        ensures
            r == ancestor(self@, e as int, depth as nat),
        decreases depth,
    {
        if e >= self.entities.len() {
            return None;
        }
        match self.entities[e].parent {
            None => None,
            Some(p) => if depth == 0 {
                Some(p)
            } else {
                self.ancestor_at(p, depth - 1)
            },
        }
    }
}

} // verus!
