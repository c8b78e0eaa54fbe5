//! The authoritative core of a turn-based strategy game.
//!
//! Teams submit batches of actions for their units.  When a turn is due, the
//! server resolves the queue against the board in three phases, under fog of
//! war, and tells each team what that team may know of the outcome.
//!
//! * [`gameboard`], [`traversal`], [`traversal_laws`]: the tile grid,
//!   neighbours, crossing costs and how far a movement budget carries a unit.
//! * [`visibility`]: which teams have seen which tiles; what is seen stays seen.
//! * [`queue`]: one batch of actions per team and turn.
//! * [`resolver`], [`turn_laws`]: the three phases of a turn and what holds
//!   of every resolution.
//! * [`sync`], [`sync_laws`]: full snapshots, filtered by what a team has
//!   seen, and what holds of every message sent.
//! * [`clock`], [`lobby`]: when a turn is due, and who plays.
//! * [`generation`], [`config`], [`console`]: setting up a game, the
//!   configuration, and the operator's commands.
//! * [`client`], [`selection`]: the client's picture of the game and what a
//!   click on the map means.

pub mod actions;
pub mod client;
pub mod clock;
pub mod config;
pub mod console;
pub mod features;
pub mod gameboard;
pub mod generation;
pub mod lobby;
pub mod position;
pub mod queue;
pub mod resolver;
pub mod schema;
pub mod selection;
pub mod state;
pub mod sync;
pub mod sync_laws;
pub mod team;
pub mod terrain;
pub mod traversal;
pub mod traversal_laws;
pub mod turn_laws;
pub mod units;
pub mod visibility;
