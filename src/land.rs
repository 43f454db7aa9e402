use vstd::prelude::*;

verus! {

/// Marks an entity as a piece of land.
pub struct Land;

/// A signed position on the land.
#[derive(Clone, Copy, Debug, PartialEq, Eq, Structural)]
pub struct GridPos {
    pub x: i32,
    pub y: i32,
}

} // verus!
