//! Terrain kinds, what a client is told of them, and what crossing them costs.

use vstd::prelude::*;

verus! {

/// Number of cost units that make up the crossing of one tile at speed 1.
///
/// Every speed multiplier is a number of tenths, and 12600 is divisible by
/// each of them, so every crossing cost is a whole number of these units.
pub const COST_SCALE: u64 = 1260;

/// What a tile is made of.
#[derive(Clone, Copy, Debug, PartialEq, Eq, Structural, Hash)]
pub enum Terrain {
    Desert,
    Forest,
    Grass,
    Jungle,
    Mountains,
    Savanna,
    ShallowWater,
    Water,
}

impl Terrain {
    /// Speed multiplier of the terrain, in tenths.
    pub open spec fn spec_speed_tenths(self) -> int {
        match self {
            Terrain::Desert => 12,
            Terrain::Forest => 9,
            Terrain::Grass => 10,
            Terrain::Jungle => 7,
            Terrain::Mountains => 5,
            Terrain::Savanna => 14,
            Terrain::ShallowWater => 9,
            Terrain::Water => 7,
        }
    }

    /// Cost of entering a tile of this terrain: the inverse of its speed
    /// multiplier, in units of which `COST_SCALE` make one.
    pub open spec fn spec_movement_cost(self) -> int {
        (10 * COST_SCALE) / self.spec_speed_tenths()
    }

    /// First sprite of the terrain's block of four in the tile atlas.
    pub open spec fn spec_atlas_base(self) -> int {
        match self {
            Terrain::Desert => 16,
            Terrain::Forest => 24,
            Terrain::Grass => 0,
            Terrain::Jungle => 12,
            Terrain::Mountains => 20,
            Terrain::Savanna => 28,
            Terrain::ShallowWater => 8,
            Terrain::Water => 4,
        }
    }

    /// Speed multiplier of the terrain, in tenths.
    pub fn speed_tenths(&self) -> (tenths: u64)
        ensures
            tenths == self.spec_speed_tenths(),
    {
        match self {
            Terrain::Desert => 12,
            Terrain::Forest => 9,
            Terrain::Grass => 10,
            Terrain::Jungle => 7,
            Terrain::Mountains => 5,
            Terrain::Savanna => 14,
            Terrain::ShallowWater => 9,
            Terrain::Water => 7,
        }
    }

    /// Cost of entering a tile of this terrain.
    pub fn movement_cost(&self) -> (cost: u64)
        ensures
            cost == self.spec_movement_cost(),
            cost * self.spec_speed_tenths() == 10 * COST_SCALE,
            900 <= cost <= 2520,
            *self == Terrain::Grass ==> cost == COST_SCALE,
    {
        (10 * COST_SCALE) / self.speed_tenths()
    }

    /// The sprite of the terrain's block that a draw in `0..4` selects.
    pub fn atlas_index_for(&self, variant: u16) -> (index: u16)
        requires
            variant < 4,
        ensures
            index == self.spec_atlas_base() + variant,
    {
        let base: u16 = match self {
            Terrain::Desert => 16,
            Terrain::Forest => 24,
            Terrain::Grass => 0,
            Terrain::Jungle => 12,
            Terrain::Mountains => 20,
            Terrain::Savanna => 28,
            Terrain::ShallowWater => 8,
            Terrain::Water => 4,
        };
        base + variant
    }
}

impl Default for Terrain {
    fn default() -> (terrain: Terrain)
        ensures
            terrain == Terrain::Grass,
    {
        Terrain::Grass
    }
}

/// A crossing cost is exactly the inverse of the speed multiplier: cost times
/// speed is one tile, for every terrain, and faster terrain is cheaper.
pub proof fn lemma_cost_is_inverse_of_speed(a: Terrain, b: Terrain)
    ensures
        a.spec_movement_cost() * a.spec_speed_tenths() == 10 * COST_SCALE,
        900 <= a.spec_movement_cost() <= 2520,
        Terrain::Grass.spec_movement_cost() == COST_SCALE,
        a.spec_speed_tenths() <= b.spec_speed_tenths() ==> a.spec_movement_cost()
            >= b.spec_movement_cost(),
{
}

/// What a client is told of a tile's terrain.
#[derive(Clone, Copy, Debug, PartialEq, Eq, Structural, Hash)]
pub enum Geography {
    /// The tile has never been seen by the client's team.
    Unexplored,
    /// The tile has been seen, and this is its terrain.
    Explored(Terrain),
}

impl Default for Geography {
    fn default() -> (geography: Geography)
        ensures
            geography == Geography::Unexplored,
    {
        Geography::Unexplored
    }
}

} // verus!
