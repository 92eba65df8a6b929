//! The closed set of terrain kinds a map cell can hold, with their fixed
//! walkability and opacity predicates.

use vstd::prelude::*;

verus! {

/// Kind of a map cell. Terrain never changes after generation, except that
/// the generator overwrites one Floor cell with Stairs.
#[derive(Clone, Copy, Debug, PartialEq, Eq, Structural)]
pub enum TerrainType {
    Floor,
    Wall,
    Stairs,
}

impl TerrainType {
    /// Whether an entity may stand on this terrain.
    pub open spec fn spec_is_walkable(&self) -> bool {
        self is Floor || self is Stairs
    }

    /// Whether this terrain blocks line of sight.
    pub open spec fn spec_is_opaque(&self) -> bool {
        self is Wall
    }

    #[verifier::when_used_as_spec(spec_is_walkable)]
    pub fn is_walkable(&self) -> (r: bool)
        ensures
            r == self.spec_is_walkable(),
    {
        matches!(self, TerrainType::Floor | TerrainType::Stairs)
    }

    #[verifier::when_used_as_spec(spec_is_opaque)]
    pub fn is_opaque(&self) -> (r: bool)
        ensures
            r == self.spec_is_opaque(),
    {
        matches!(self, TerrainType::Wall)
    }
}

impl Default for TerrainType {
    /// The generator starts every cell as Wall and carves Floor out of it,
    /// but a bare cell defaults to Floor as open ground.
    fn default() -> (r: Self)
        ensures
            r is Floor,
    {
        TerrainType::Floor
    }
}

} // verus!
