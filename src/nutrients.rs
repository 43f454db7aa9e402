use vstd::prelude::*;

verus! {

/// A nutrient that plants draw from the soil.
#[derive(Clone, Copy, Debug, PartialEq, Eq, Structural)]
pub enum Nutrient {
    Nitrogen,
    Phosphorus,
    Potassium,
}

/// Marks an entity that takes up a nutrient.
pub struct NutrientSink(pub Nutrient);

/// Marks an entity that gives off a nutrient.
pub struct NutrientSource(pub Nutrient);

} // verus!
