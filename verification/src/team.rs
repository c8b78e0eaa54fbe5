//! Factions: the identity that keys ownership and visibility.

use vstd::prelude::*;

verus! {

/// The four colours a faction can play under.
#[derive(Clone, Copy, Debug, PartialEq, Eq, Structural, Hash)]
pub enum TeamColour {
    Blue,
    Red,
    Purple,
    Yellow,
}

impl TeamColour {
    /// The colour named by the numbers 1 to 3; every other number names blue.
    pub open spec fn spec_from_int(index: int) -> TeamColour {
        if index == 1 {
            TeamColour::Red
        } else if index == 2 {
            TeamColour::Purple
        } else if index == 3 {
            TeamColour::Yellow
        } else {
            TeamColour::Blue
        }
    }

    /// Position of the colour in the fixed order blue, red, purple, yellow.
    pub open spec fn spec_index(self) -> int {
        match self {
            TeamColour::Blue => 0,
            TeamColour::Red => 1,
            TeamColour::Purple => 2,
            TeamColour::Yellow => 3,
        }
    }

    /// Colour handed to the player who joins when `index` players are already present.
    pub fn from_int(index: &usize) -> (colour: TeamColour)
        ensures
            colour == Self::spec_from_int(*index as int),
    {
        if *index == 1 {
            TeamColour::Red
        } else if *index == 2 {
            TeamColour::Purple
        } else if *index == 3 {
            TeamColour::Yellow
        } else {
            TeamColour::Blue
        }
    }

    /// Position of the colour in the fixed order blue, red, purple, yellow.
    pub fn index(&self) -> (i: u8)
        ensures
            i == self.spec_index(),
            i < 4,
    {
        match self {
            TeamColour::Blue => 0,
            TeamColour::Red => 1,
            TeamColour::Purple => 2,
            TeamColour::Yellow => 3,
        }
    }
}

impl Default for TeamColour {
    fn default() -> (colour: TeamColour)
        ensures
            colour == TeamColour::Blue,
    {
        TeamColour::Blue
    }
}

/// Numbering the colours and naming them back is the identity on 0 to 3.
pub proof fn lemma_colour_index_round_trip(colour: TeamColour)
    ensures
        0 <= colour.spec_index() < 4,
        TeamColour::spec_from_int(colour.spec_index()) == colour,
{
}

/// A player's faction.
#[derive(Clone, Copy, Debug, PartialEq, Eq, Structural, Hash)]
pub struct PlayerTeam(pub TeamColour);

impl PlayerTeam {
    /// Position of the team in the fixed order blue, red, purple, yellow.
    pub open spec fn spec_index(self) -> int {
        self.0.spec_index()
    }

    /// The team at a position of the fixed order; positions past the end name blue.
    pub open spec fn spec_from_index(index: int) -> PlayerTeam {
        PlayerTeam(TeamColour::spec_from_int(index))
    }

    /// Position of the team in the fixed order blue, red, purple, yellow.
    pub fn index(&self) -> (i: u8)
        ensures
            i == self.spec_index(),
            i < 4,
    {
        self.0.index()
    }

    /// The team at a position of the fixed order; positions past the end name blue.
    pub fn from_index(index: u8) -> (team: PlayerTeam)
        ensures
            team == Self::spec_from_index(index as int),
    {
        let wide: usize = index as usize;
        PlayerTeam(TeamColour::from_int(&wide))
    }
}

impl Default for PlayerTeam {
    fn default() -> (team: PlayerTeam)
        ensures
            team == PlayerTeam(TeamColour::Blue),
    {
        PlayerTeam(TeamColour::Blue)
    }
}

/// A set of teams, one flag per colour.
#[derive(Clone, Copy, Debug, PartialEq, Eq, Structural, Hash)]
pub struct TeamSet {
    pub blue: bool,
    pub red: bool,
    pub purple: bool,
    pub yellow: bool,
}

impl TeamSet {
    /// Whether `team` is a member.
    pub open spec fn has(self, team: PlayerTeam) -> bool {
        match team.0 {
            TeamColour::Blue => self.blue,
            TeamColour::Red => self.red,
            TeamColour::Purple => self.purple,
            TeamColour::Yellow => self.yellow,
        }
    }

    /// The members as a mathematical set.
    pub open spec fn view(self) -> Set<PlayerTeam> {
        Set::new(|team: PlayerTeam| self.has(team))
    }

    /// Every member of `self` is a member of `other`.
    pub open spec fn subset_of(self, other: TeamSet) -> bool {
        forall|team: PlayerTeam| self.has(team) ==> other.has(team)
    }

    /// The set with `team` added.
    pub open spec fn spec_with(self, team: PlayerTeam) -> TeamSet {
        match team.0 {
            TeamColour::Blue => TeamSet { blue: true, ..self },
            TeamColour::Red => TeamSet { red: true, ..self },
            TeamColour::Purple => TeamSet { purple: true, ..self },
            TeamColour::Yellow => TeamSet { yellow: true, ..self },
        }
    }

    /// The set without members.
    pub fn empty() -> (set: TeamSet)
        ensures
            set == (TeamSet { blue: false, red: false, purple: false, yellow: false }),
            set@ == Set::<PlayerTeam>::empty(),
            forall|team: PlayerTeam| !set.has(team),
    {
        let set = TeamSet { blue: false, red: false, purple: false, yellow: false };
        assert(set@ =~= Set::<PlayerTeam>::empty());
        set
    }

    /// Whether `team` is a member.
    pub fn contains(&self, team: PlayerTeam) -> (found: bool)
        ensures
            found == self.has(team),
            found == self@.contains(team),
    {
        match team.0 {
            TeamColour::Blue => self.blue,
            TeamColour::Red => self.red,
            TeamColour::Purple => self.purple,
            TeamColour::Yellow => self.yellow,
        }
    }

    /// Adds `team`; says whether it was absent before.
    pub fn insert(&mut self, team: PlayerTeam) -> (newly: bool)
        ensures
            *final(self) == old(self).spec_with(team),
            final(self)@ == old(self)@.insert(team),
            newly == !old(self).has(team),
    {
        let newly = !self.contains(team);
        match team.0 {
            TeamColour::Blue => {
                self.blue = true;
            },
            TeamColour::Red => {
                self.red = true;
            },
            TeamColour::Purple => {
                self.purple = true;
            },
            TeamColour::Yellow => {
                self.yellow = true;
            },
        }
        proof {
            lemma_with_is_insert(*old(self), team);
        }
        newly
    }
}

/// Adding a team to the flags adds exactly that team to the set they stand for.
pub proof fn lemma_with_is_insert(set: TeamSet, team: PlayerTeam)
    ensures
        set.spec_with(team)@ == set@.insert(team),
        set.spec_with(team).has(team),
        set.subset_of(set.spec_with(team)),
        forall|other: PlayerTeam| other != team ==> set.spec_with(team).has(other) == set.has(other),
        set.has(team) ==> set.spec_with(team) == set,
{
    assert(set.spec_with(team)@ =~= set@.insert(team));
}

} // verus!
