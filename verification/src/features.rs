//! Things that stand on tiles: resource sites and nests.

use vstd::prelude::*;
use crate::position::Position;
use crate::team::PlayerTeam;
use crate::team::TeamSet;
use crate::units::Archetype;
use crate::units::Archetypes;
use crate::team::TeamColour;

verus! {

/// The kinds of feature.
#[derive(Clone, Copy, Debug, PartialEq, Eq, Structural, Hash)]
pub enum TileFeatures {
    /// A resource site of a school.
    CurrencySite(Archetype),
    /// The home of a team.
    Nest(PlayerTeam),
}

impl TileFeatures {
    /// Sprite of the feature kind in the feature atlas.
    pub open spec fn spec_texture_index(self) -> int {
        match self {
            TileFeatures::CurrencySite(Archetype(Archetypes::Magic)) => 0,
            TileFeatures::CurrencySite(Archetype(Archetypes::Science)) => 1,
            TileFeatures::Nest(PlayerTeam(TeamColour::Red)) => 3,
            _ => 4,
        }
    }

    /// Sprite of the feature kind in the feature atlas.
    pub fn texture_index(&self) -> (index: usize)
        ensures
            index == self.spec_texture_index(),
    {
        match self {
            TileFeatures::CurrencySite(Archetype(Archetypes::Magic)) => 0,
            TileFeatures::CurrencySite(Archetype(Archetypes::Science)) => 1,
            TileFeatures::Nest(PlayerTeam(TeamColour::Red)) => 3,
            _ => 4,
        }
    }
}

/// A feature, where it stands, and the teams that have discovered it.
#[derive(Clone, Copy, Debug, PartialEq, Eq, Structural, Hash)]
pub struct TileFeature {
    pub pos: Position,
    pub feature: TileFeatures,
    pub visible_to_players: TeamSet,
}

impl TileFeature {
    /// Whether a team that sees the tile is also shown the feature: a nest
    /// always, a resource site only once the team has discovered it.
    pub open spec fn spec_shown_to(self, team: PlayerTeam) -> bool {
        match self.feature {
            TileFeatures::Nest(_) => true,
            TileFeatures::CurrencySite(_) => self.visible_to_players.has(team),
        }
    }

    /// A feature that no team has discovered yet.
    pub fn new(pos: Position, feature: TileFeatures) -> (made: TileFeature)
        ensures
            made == (TileFeature {
                pos,
                feature,
                visible_to_players: TeamSet { blue: false, red: false, purple: false, yellow: false },
            }),
            forall|team: PlayerTeam| !made.visible_to_players.has(team),
    {
        TileFeature { pos, feature, visible_to_players: TeamSet::empty() }
    }

    /// Whether a team that sees the tile is also shown the feature.
    pub fn shown_to(&self, team: PlayerTeam) -> (shown: bool)
        ensures
            shown == self.spec_shown_to(team),
    {
        match self.feature {
            TileFeatures::Nest(_) => true,
            TileFeatures::CurrencySite(_) => self.visible_to_players.contains(team),
        }
    }

    /// Records that `team` has discovered the feature; says whether that is news.
    pub fn reveal_to(&mut self, team: PlayerTeam) -> (newly: bool)
        ensures
            final(self).pos == old(self).pos,
            final(self).feature == old(self).feature,
            final(self).visible_to_players == old(self).visible_to_players.spec_with(team),
            final(self).visible_to_players.has(team),
            final(self).spec_shown_to(team),
            newly == !old(self).visible_to_players.has(team),
    {
        let newly = self.visible_to_players.insert(team);
        proof {
            crate::team::lemma_with_is_insert(old(self).visible_to_players, team);
        }
        newly
    }
}

} // verus!
