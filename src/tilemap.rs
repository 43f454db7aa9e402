pub mod pick;
pub mod tile_type;

use crate::tilemap::tile_type::{TileBundle, TilePos};
use crate::world::{world_wf, EntityRecord, Tile, World};
use vstd::arithmetic::div_mod::{
    lemma_div_pos_is_pos, lemma_fundamental_div_mod, lemma_fundamental_div_mod_converse,
    lemma_mod_pos_bound,
};
use vstd::arithmetic::mul::{lemma_mul_inequality, lemma_mul_is_commutative};
use vstd::prelude::*;

verus! {

/// Width of the board that the game spawns.
pub const BOARD_SIZE_I: u32 = 8;

/// Depth of the board that the game spawns.
pub const BOARD_SIZE_J: u32 = 8;

/// Size of a tile grid, in tiles along each axis.
#[derive(Clone, Copy, Debug, PartialEq, Eq, Structural)]
pub struct TilemapSize {
    pub x: u32,
    pub y: u32,
}

impl TilemapSize {
    pub open spec fn count(self) -> int {
        self.x as int * self.y as int
    }

    pub open spec fn contains(self, pos: TilePos) -> bool {
        pos.x < self.x && pos.y < self.y
    }
}

/// Slot of a position in a grid of the given width, row by row.
pub open spec fn tile_index(pos: TilePos, size: TilemapSize) -> int {
    pos.y as int * size.x as int + pos.x as int
}

/// The grid position that the `k`th tile spawned takes when a grid of the
/// given depth is filled column by column: `(k / depth, k % depth)`.
pub open spec fn grid_pos(k: int, depth: int) -> TilePos {
    TilePos { x: (k / depth) as u32, y: (k % depth) as u32 }
}

/// Distinct positions inside a grid occupy distinct slots.
proof fn lemma_tile_index_injective(p: TilePos, q: TilePos, size: TilemapSize)
    requires
        size.contains(p),
        size.contains(q),
        tile_index(p, size) == tile_index(q, size),
    ensures
        p == q,
{
    lemma_fundamental_div_mod_converse(tile_index(p, size), size.x as int, p.y as int, p.x as int);
    lemma_fundamental_div_mod_converse(tile_index(q, size), size.x as int, q.y as int, q.x as int);
}

/// The slot of a position inside a grid lies inside the grid.
proof fn lemma_tile_index_in_grid(pos: TilePos, size: TilemapSize)
    requires
        size.contains(pos),
    ensures
        0 <= tile_index(pos, size) < size.count(),
{
    assert((pos.y as int) * (size.x as int) + (pos.x as int) < (size.x as int) * (size.y as int))
        by (nonlinear_arith)
        requires
            pos.x < size.x,
            pos.y < size.y,
    ;
}

/// Index of the tile entities of a grid by position.
pub struct TileStorage {
    pub size: TilemapSize,
    pub tiles: Vec<Option<usize>>,
}

impl TileStorage {
    pub open spec fn wf(&self) -> bool {
        self.tiles@.len() == self.size.count()
    }

    /// The entity stored at a position of the grid.
    pub open spec fn entity_at(&self, pos: TilePos) -> Option<usize> {
        self.tiles@[tile_index(pos, self.size)]
    }

    /// A storage of the given size with no entity in it.
    pub fn empty(size: TilemapSize) -> (r: TileStorage)
        requires
            size.count() <= usize::MAX,
        ensures
            r.wf(),
            r.size == size,
            forall|pos: TilePos| size.contains(pos) ==> #[trigger] r.entity_at(pos) is None,
    {
        let n: usize = size.x as usize * size.y as usize;
        let mut tiles: Vec<Option<usize>> = Vec::new();
        let mut i: usize = 0;
        while i < n
            invariant
                i <= n,
                tiles@.len() == i,
                forall|j: int| 0 <= j < i ==> tiles@[j] is None,
            decreases n - i,
        {
            tiles.push(None);
            i = i + 1;
        }
        let r = TileStorage { size, tiles };
        assert forall|pos: TilePos| size.contains(pos) implies #[trigger] r.entity_at(pos) is None by {
            lemma_tile_index_in_grid(pos, size);
        }
        r
    }

    fn index(&self, pos: &TilePos) -> (r: usize)
        requires
            self.wf(),
            self.size.contains(*pos),
        ensures
            r == tile_index(*pos, self.size),
            r < self.tiles@.len(),
    {
        proof {
            lemma_tile_index_in_grid(*pos, self.size);
        }
        let n = self.tiles.len();
        assert((pos.y as int) * (self.size.x as int) <= tile_index(*pos, self.size) < n);
        pos.y as usize * self.size.x as usize + pos.x as usize
    }

    /// The entity at `pos`, or `None` where `pos` lies outside the grid.
    pub fn get(&self, pos: &TilePos) -> (r: Option<usize>)
        requires
            self.wf(),
        ensures
            r == (if self.size.contains(*pos) { self.entity_at(*pos) } else { None }),
    {
        if pos.x < self.size.x && pos.y < self.size.y {
            self.tiles[self.index(pos)]
        } else {
            None
        }
    }

    /// Records `entity` at `pos`; every other position keeps its entity.
    pub fn set(&mut self, pos: &TilePos, entity: usize)
        requires
            old(self).wf(),
            old(self).size.contains(*pos),
        ensures
            final(self).wf(),
            final(self).size == old(self).size,
            final(self).entity_at(*pos) == Some(entity),
            forall|q: TilePos|
                old(self).size.contains(q) && q != *pos ==> #[trigger] final(self).entity_at(q)
                    == old(self).entity_at(q),
    {
        let i = self.index(pos);
        self.tiles.set(i, Some(entity));
        proof {
            assert forall|q: TilePos| old(self).size.contains(q) && q != *pos implies #[trigger] self.entity_at(q)
                == old(self).entity_at(q) by {
                lemma_tile_index_in_grid(q, self.size);
                if tile_index(q, self.size) == tile_index(*pos, self.size) {
                    lemma_tile_index_injective(q, *pos, self.size);
                }
                assert(tile_index(q, self.size) != i);
            }
        }
    }
}

/// Spawns a grid of `map_size.x` by `map_size.y` tiles under a new root
/// entity and returns the root with the index of the tiles by position.
///
/// The root comes first; the `k`th tile after it stands at `grid_pos(k, map_size.y)`,
/// under the root, bare, with a kind from the weighted draw. The entities that
/// were there before keep their indices and their records.
pub fn spawn_tilemap(world: &mut World, map_size: TilemapSize) -> (r: (usize, TileStorage))
    requires
        old(world).wf(),
        old(world)@.len() + 1 + map_size.count() <= usize::MAX,
    ensures
        final(world).wf(),
        r.0 == old(world)@.len(),
        final(world)@.len() == old(world)@.len() + 1 + map_size.count(),
        forall|e: int| 0 <= e < old(world)@.len() ==> #[trigger] final(world)@[e] == old(world)@[e],
        final(world)@[r.0 as int] == (EntityRecord { parent: None, tile: None, plant: None }),
        forall|k: int|
            0 <= k < map_size.count() ==> {
                let rec = #[trigger] final(world)@[r.0 + 1 + k];
                &&& rec.parent == Some(r.0)
                &&& rec.plant is None
                &&& rec.tile matches Some(t) && t.tile_pos == grid_pos(k, map_size.y as int)
            },
        r.1.wf(),
        r.1.size == map_size,
        forall|pos: TilePos|
            map_size.contains(pos) ==> #[trigger] r.1.entity_at(pos) == Some(
                (r.0 + 1 + pos.x * map_size.y + pos.y) as usize,
            ),
{
    let ghost start = world@;
    let w = map_size.x;
    let h = map_size.y;
    proof {
        assert(0 <= map_size.count()) by (nonlinear_arith)
            requires
                map_size.count() == (w as int) * (h as int),
        ;
    }
    let mut tile_storage = TileStorage::empty(map_size);
    let root = world.spawn(None, None);
    let mut x: u32 = 0;
    while x < w
        invariant
            x <= w,
            world.wf(),
            world@.len() == root + 1 + x * h,
            root == start.len(),
            root + 1 + map_size.count() <= usize::MAX,
            map_size == (TilemapSize { x: w, y: h }),
            forall|e: int| 0 <= e < start.len() ==> #[trigger] world@[e] == start[e],
            world@[root as int] == (EntityRecord { parent: None, tile: None, plant: None }),
            forall|k: int|
                0 <= k < x * h ==> {
                    let rec = #[trigger] world@[root + 1 + k];
                    &&& rec.parent == Some(root)
                    &&& rec.plant is None
                    &&& rec.tile matches Some(t) && t.tile_pos == grid_pos(k, h as int)
                },
            tile_storage.wf(),
            tile_storage.size == map_size,
            forall|pos: TilePos|
                map_size.contains(pos) && pos.x < x ==> #[trigger] tile_storage.entity_at(pos)
                    == Some((root + 1 + pos.x * h + pos.y) as usize),
        decreases w - x,
    {
        proof {
            assert(x * h + h <= w * h) by (nonlinear_arith)
                requires
                    x < w,
            ;
        }
        let mut y: u32 = 0;
        while y < h
            invariant
                x < w,
                y <= h,
                x * h + h <= w * h,
                world.wf(),
                world@.len() == root + 1 + x * h + y,
                root == start.len(),
                root + 1 + map_size.count() <= usize::MAX,
                map_size == (TilemapSize { x: w, y: h }),
                forall|e: int| 0 <= e < start.len() ==> #[trigger] world@[e] == start[e],
                world@[root as int] == (EntityRecord { parent: None, tile: None, plant: None }),
                forall|k: int|
                    0 <= k < x * h + y ==> {
                        let rec = #[trigger] world@[root + 1 + k];
                        &&& rec.parent == Some(root)
                        &&& rec.plant is None
                        &&& rec.tile matches Some(t) && t.tile_pos == grid_pos(k, h as int)
                    },
                tile_storage.wf(),
                tile_storage.size == map_size,
                forall|pos: TilePos|
                    map_size.contains(pos) && (pos.x < x || (pos.x == x && pos.y < y))
                        ==> #[trigger] tile_storage.entity_at(pos) == Some(
                        (root + 1 + pos.x * h + pos.y) as usize,
                    ),
            decreases h - y,
        {
            let tile_pos = TilePos { x, y };
            let tile_bundle = TileBundle::random(tile_pos);
            let tile = Tile { tile_type: tile_bundle.tile_type, tile_pos: tile_bundle.tile_pos };
            let ghost before = world@;
            let tile_entity = world.spawn(Some(root), Some(tile));
            proof {
                let k = x * h + y;
                lemma_fundamental_div_mod_converse(k, h as int, x as int, y as int);
                assert(grid_pos(k, h as int) == tile_pos);
                assert forall|j: int| 0 <= j < k + 1 implies {
                    let rec = #[trigger] world@[root + 1 + j];
                    &&& rec.parent == Some(root)
                    &&& rec.plant is None
                    &&& rec.tile matches Some(t) && t.tile_pos == grid_pos(j, h as int)
                } by {
                    if j < k {
                        assert(world@[root + 1 + j] == before[root + 1 + j]);
                    }
                }
            }
            tile_storage.set(&tile_pos, tile_entity);
            y = y + 1;
        }
        proof {
            assert(x * h + h == (x + 1) * h) by (nonlinear_arith);
        }
        x = x + 1;
    }
    proof {
        assert(map_size.count() == w * h);
    }
    (root, tile_storage)
}

/// A grid of `w` by `h` tiles: every tile's position lies in `[0, w) × [0, h)`,
/// no two tiles share a position, and every position of the grid has its tile.
/// So a grid of `w * h` tiles covers each position exactly once.
pub proof fn lemma_grid_positions(w: u32, h: u32)
    ensures
        forall|k: int|
            0 <= k < w * h ==> #[trigger] grid_pos(k, h as int).x < w && grid_pos(k, h as int).y < h,
        forall|k1: int, k2: int|
            0 <= k1 < w * h && 0 <= k2 < w * h && k1 != k2 ==> #[trigger] grid_pos(k1, h as int)
                != #[trigger] grid_pos(k2, h as int),
        forall|x: int, y: int|
            0 <= x < w && 0 <= y < h ==> #[trigger] grid_pos(x * h + y, h as int) == (TilePos {
                x: x as u32,
                y: y as u32,
            }),
{
    assert forall|k: int| 0 <= k < w * h implies #[trigger] grid_pos(k, h as int).x < w && grid_pos(
        k,
        h as int,
    ).y < h by {
        lemma_grid_pos_bounds(k, w as int, h as int);
    }
    assert forall|k1: int, k2: int|
        0 <= k1 < w * h && 0 <= k2 < w * h && k1 != k2 implies #[trigger] grid_pos(k1, h as int)
        != #[trigger] grid_pos(k2, h as int) by {
        lemma_grid_pos_bounds(k1, w as int, h as int);
        lemma_grid_pos_bounds(k2, w as int, h as int);
        if grid_pos(k1, h as int) == grid_pos(k2, h as int) {
            lemma_fundamental_div_mod(k1, h as int);
            lemma_fundamental_div_mod(k2, h as int);
        }
    }
    assert forall|x: int, y: int| 0 <= x < w && 0 <= y < h implies #[trigger] grid_pos(
        x * h + y,
        h as int,
    ) == (TilePos { x: x as u32, y: y as u32 }) by {
        lemma_fundamental_div_mod_converse(x * h + y, h as int, x, y);
    }
}

/// Position `k` of a grid of `w * h` tiles, `w` columns of depth `h`, lies in
/// the grid.
proof fn lemma_grid_pos_bounds(k: int, w: int, h: int)
    requires
        0 <= k < w * h,
        0 < h,
    ensures
        0 <= k / h < w,
        0 <= k % h < h,
{
    lemma_fundamental_div_mod(k, h);
    lemma_div_pos_is_pos(k, h);
    lemma_mod_pos_bound(k, h);
    if k / h >= w {
        lemma_mul_inequality(w, k / h, h);
        lemma_mul_is_commutative(h, k / h);
    }
}

} // verus!
