//! The action queue: one batch of actions per team for the turn in progress.

use vstd::prelude::*;
use crate::actions::QueuedAction;
use crate::actions::UnitAction;
use crate::team::PlayerTeam;

verus! {

/// The batches submitted for the turn in progress, keyed by the position of
/// the team in the fixed order of the colours.
///
/// The batches live in a hash map of `bevy::utils`, which Verus does not
/// read; what it holds is named by `moves_contents`.
#[verifier::external_body]
pub struct PlayerMoves {
    map: bevy::utils::HashMap<u8, Vec<UnitAction>>,
}

/// The batches a `PlayerMoves` holds, by team position.
pub uninterp spec fn moves_contents(moves: PlayerMoves) -> Map<u8, Seq<UnitAction>>;

/// The queue in which no team has a batch.
pub open spec fn spec_no_batches() -> Map<u8, Seq<UnitAction>> {
    Map::empty()
}

/// `HashMap::default` of hashbrown: a map that holds nothing.
#[verifier::external_body]
fn moves_default() -> (made: PlayerMoves)
    ensures
        moves_contents(made) == spec_no_batches(),
{
    PlayerMoves { map: bevy::utils::HashMap::default() }
}

/// `HashMap::len` of hashbrown: the number of keys held.
#[verifier::external_body]
fn moves_len(moves: &PlayerMoves) -> (n: usize)
    ensures
        n == moves_contents(*moves).dom().len(),
{
    moves.map.len()
}

/// `HashMap::get` of hashbrown: the value stored under `key`, if there is one.
#[verifier::external_body]
fn moves_get(moves: &PlayerMoves, key: u8) -> (batch: Option<&Vec<UnitAction>>)
    ensures
        batch.is_some() == moves_contents(*moves).dom().contains(key),
        batch matches Some(b) ==> b@ == moves_contents(*moves)[key],
{
    moves.map.get(&key)
}

/// `HashMap::insert` of hashbrown: afterwards `key` maps to `batch`, and
/// every other key to what it mapped to before.
#[verifier::external_body]
fn moves_insert(moves: &mut PlayerMoves, key: u8, batch: Vec<UnitAction>)
    ensures
        moves_contents(*final(moves)) == moves_contents(*old(moves)).insert(key, batch@),
{
    moves.map.insert(key, batch);
}

/// The batch stored under a team position, each action tagged with its
/// team; empty when the team has submitted nothing.
pub open spec fn spec_team_queue(contents: Map<u8, Seq<UnitAction>>, key: u8) -> Seq<QueuedAction> {
    if contents.dom().contains(key) {
        contents[key].map_values(
            |action: UnitAction|
                QueuedAction { team: PlayerTeam::spec_from_index(key as int), action },
        )
    } else {
        Seq::empty()
    }
}

/// The queue of a turn: the batches of blue, red, purple and yellow, in that
/// order, each in the order in which its team wrote it.
pub open spec fn spec_queue(contents: Map<u8, Seq<UnitAction>>) -> Seq<QueuedAction> {
    spec_team_queue(contents, 0) + spec_team_queue(contents, 1) + spec_team_queue(contents, 2)
        + spec_team_queue(contents, 3)
}

impl View for PlayerMoves {
    type V = Map<u8, Seq<UnitAction>>;

    open spec fn view(&self) -> Map<u8, Seq<UnitAction>> {
        moves_contents(*self)
    }
}

impl PlayerMoves {
    /// Whether `team` has a batch in the queue.
    pub open spec fn has_batch(self, team: PlayerTeam) -> bool {
        self@.dom().contains(team.spec_index() as u8)
    }

    /// A queue without batches.
    pub fn new() -> (moves: PlayerMoves)
        ensures
            moves@ == Map::<u8, Seq<UnitAction>>::empty(),
            spec_queue(moves@) == Seq::<QueuedAction>::empty(),
    {
        let moves = moves_default();
        assert(spec_queue(moves@) =~= Seq::<QueuedAction>::empty());
        moves
    }

    /// Number of teams that have submitted.
    pub fn len(&self) -> (n: usize)
        ensures
            n == self@.dom().len(),
    {
        moves_len(self)
    }

    /// Whether `team` has submitted its batch for this turn.
    pub fn submitted(&self, team: PlayerTeam) -> (found: bool)
        ensures
            found == self.has_batch(team),
    {
        moves_get(self, team.index()).is_some()
    }

    /// Takes the batch of `team` for this turn.  The first batch of a team is
    /// accepted; any later one in the same turn is dropped, and the queue
    /// stays as it was.
    pub fn submit(&mut self, team: PlayerTeam, batch: Vec<UnitAction>) -> (accepted: bool)
        ensures
            accepted == !old(self).has_batch(team),
            accepted ==> final(self)@ == old(self)@.insert(team.spec_index() as u8, batch@),
            !accepted ==> final(self)@ == old(self)@,
            final(self).has_batch(team),
            forall|other: PlayerTeam| old(self).has_batch(other) ==> final(self).has_batch(other),
    {
        if moves_get(self, team.index()).is_some() {
            false
        } else {
            moves_insert(self, team.index(), batch);
            true
        }
    }

    /// Whether as many teams have submitted as there are players.
    pub fn all_submitted(&self, players: usize) -> (ready: bool)
        ensures
            ready == (self@.dom().len() == players),
    {
        moves_len(self) == players
    }

    /// The queue of the turn: every submitted action with its team, the
    /// teams in the fixed order of the colours.
    pub fn queued_actions(&self) -> (queue: Vec<QueuedAction>)
        ensures
            queue@ == spec_queue(self@),
    {
        let mut queue: Vec<QueuedAction> = Vec::new();
        let mut key: u8 = 0;
        while key < 4
            invariant
                key <= 4,
                queue@ == (if key >= 1 {
                    spec_team_queue(self@, 0)
                } else {
                    Seq::empty()
                }) + (if key >= 2 {
                    spec_team_queue(self@, 1)
                } else {
                    Seq::empty()
                }) + (if key >= 3 {
                    spec_team_queue(self@, 2)
                } else {
                    Seq::empty()
                }) + (if key >= 4 {
                    spec_team_queue(self@, 3)
                } else {
                    Seq::empty()
                }),
            decreases 4 - key,
        {
            let ghost before = queue@;
            let team = PlayerTeam::from_index(key);
            match moves_get(self, key) {
                Some(batch) => {
                    let mut i: usize = 0;
                    while i < batch.len()
                        invariant
                            i <= batch@.len(),
                            batch@ == self@[key],
                            self@.dom().contains(key),
                            team == PlayerTeam::spec_from_index(key as int),
                            queue@ == before + spec_team_queue(self@, key).take(i as int),
                        decreases batch@.len() - i,
                    {
                        queue.push(QueuedAction { team, action: batch[i] });
                        i = i + 1;
                    }
                    assert(spec_team_queue(self@, key).take(i as int) =~= spec_team_queue(
                        self@,
                        key,
                    ));
                },
                None => {
                    assert(queue@ =~= before + spec_team_queue(self@, key));
                },
            }
            key = key + 1;
        }
        queue
    }

    /// Empties the queue.
    pub fn clear(&mut self)
        ensures
            final(self)@ == Map::<u8, Seq<UnitAction>>::empty(),
            spec_queue(final(self)@) == Seq::<QueuedAction>::empty(),
    {
        *self = PlayerMoves::new();
    }
}

impl Default for PlayerMoves {
    fn default() -> (moves: PlayerMoves)
        ensures
            moves@ == Map::<u8, Seq<UnitAction>>::empty(),
    {
        PlayerMoves::new()
    }
}

/// A second batch from a team that has already submitted leaves the queue
/// as the first made it: the queue holds at most one batch per team.
pub proof fn lemma_one_batch_per_team(
    contents: Map<u8, Seq<UnitAction>>,
    key: u8,
    first: Seq<UnitAction>,
)
    ensures
        spec_team_queue(contents.insert(key, first), key).len() == first.len(),
        forall|other: u8|
            other != key ==> #[trigger] spec_team_queue(contents.insert(key, first), other)
                == spec_team_queue(contents, other),
{
}

} // verus!
