//! The operator's console: the commands that a line of input stands for.
//!
//! ```text
//! debug
//!     players          lists the players and their identities
//!     reveal <uuid>    shows a player the whole map
//!     turn
//!         status       says which teams have submitted
//!         execute      resolves the turn at once
//! ```

use vstd::prelude::*;

verus! {

/// A command of the console.
#[derive(Clone, Copy, Debug, PartialEq, Eq, Structural, Hash)]
pub enum ConsoleCommand {
    DebugPlayers,
    DebugReveal(u128),
    DebugTurnStatus,
    DebugTurnExecute,
}

/// Why a line of input is no command.
#[derive(Clone, Copy, Debug, PartialEq, Eq, Structural, Hash)]
pub enum ConsoleFault {
    /// The line holds no word.
    Empty,
    /// The first word is not `debug`.
    UnknownCommand,
    /// `debug` stands alone.
    MissingSubcommand,
    /// The word after `debug` is none of `players`, `reveal` and `turn`.
    UnknownSubcommand,
    /// `reveal` is not followed by exactly one word.
    RevealNeedsUuid,
    /// The word after `reveal` is no UUID.
    NotAUuid,
    /// `turn` stands alone.
    TurnNeedsSubcommand,
    /// The word after `turn` is neither `status` nor `execute`.
    UnknownTurnSubcommand,
}

/// The words of a line: its pieces between white space.
pub uninterp spec fn spec_words(line: Seq<char>) -> Seq<Seq<char>>;

/// The 128-bit value of the UUID that a word spells, if it spells one.
pub uninterp spec fn spec_uuid(word: Seq<char>) -> Option<u128>;

/// `str::split_whitespace`: the pieces of the line between white space, in order.
#[verifier::external_body]
fn split_words(line: &str) -> (words: Vec<String>)
    ensures
        words@.len() == spec_words(line@).len(),
        forall|i: int| 0 <= i < words@.len() ==> (#[trigger] words@[i])@ == spec_words(line@)[i],
{
    line.split_whitespace().map(String::from).collect()
}

/// `Uuid::parse_str` of uuid, and `Uuid::as_u128` on what it returns: the
/// 128-bit value of the UUID that the word spells; nothing if it spells none.
#[verifier::external_body]
fn parse_uuid(word: &str) -> (id: Option<u128>)
    ensures
        id == spec_uuid(word@),
{
    match bevy::utils::Uuid::parse_str(word) {
        Ok(uuid) => Some(uuid.as_u128()),
        Err(_) => None,
    }
}

/// The command that words stand for, or why they stand for none, when
/// `reveal_id` is the UUID that the third word spells.
pub open spec fn spec_command_with(words: Seq<Seq<char>>, reveal_id: Option<u128>) -> Result<
    ConsoleCommand,
    ConsoleFault,
> {
    if words.len() == 0 {
        Err(ConsoleFault::Empty)
    } else if words[0] != "debug"@ {
        Err(ConsoleFault::UnknownCommand)
    } else if words.len() < 2 {
        Err(ConsoleFault::MissingSubcommand)
    } else if words[1] == "players"@ {
        Ok(ConsoleCommand::DebugPlayers)
    } else if words[1] == "reveal"@ {
        if words.len() != 3 {
            Err(ConsoleFault::RevealNeedsUuid)
        } else {
            match reveal_id {
                Some(id) => Ok(ConsoleCommand::DebugReveal(id)),
                None => Err(ConsoleFault::NotAUuid),
            }
        }
    } else if words[1] == "turn"@ {
        if words.len() < 3 {
            Err(ConsoleFault::TurnNeedsSubcommand)
        } else if words[2] == "status"@ {
            Ok(ConsoleCommand::DebugTurnStatus)
        } else if words[2] == "execute"@ {
            Ok(ConsoleCommand::DebugTurnExecute)
        } else {
            Err(ConsoleFault::UnknownTurnSubcommand)
        }
    } else {
        Err(ConsoleFault::UnknownSubcommand)
    }
}

/// The command that the words of a line stand for, or why they stand for none.
pub open spec fn spec_command(words: Seq<Seq<char>>) -> Result<ConsoleCommand, ConsoleFault> {
    spec_command_with(
        words,
        if words.len() == 3 {
            spec_uuid(words[2])
        } else {
            None
        },
    )
}

/// Whether a word is the given keyword.
fn is_word(word: &String, keyword: &str) -> (same: bool)
    ensures
        same == (word@ == keyword@),
{
    *word == keyword.to_owned()
}

/// The command that words stand for, or why they stand for none, when
/// `reveal_id` is the UUID that the third word spells.
pub fn command_with(words: &Vec<String>, reveal_id: Option<u128>) -> (command: Result<
    ConsoleCommand,
    ConsoleFault,
>)
    ensures
        command == spec_command_with(words@.map_values(|w: String| w@), reveal_id),
{
    let ghost seen = words@.map_values(|w: String| w@);
    if words.len() == 0 {
        return Err(ConsoleFault::Empty);
    }
    assert(seen[0] == words@[0]@);
    if !is_word(&words[0], "debug") {
        return Err(ConsoleFault::UnknownCommand);
    }
    if words.len() < 2 {
        return Err(ConsoleFault::MissingSubcommand);
    }
    assert(seen[1] == words@[1]@);
    if is_word(&words[1], "players") {
        Ok(ConsoleCommand::DebugPlayers)
    } else if is_word(&words[1], "reveal") {
        if words.len() != 3 {
            Err(ConsoleFault::RevealNeedsUuid)
        } else {
            match reveal_id {
                Some(id) => Ok(ConsoleCommand::DebugReveal(id)),
                None => Err(ConsoleFault::NotAUuid),
            }
        }
    } else if is_word(&words[1], "turn") {
        if words.len() < 3 {
            Err(ConsoleFault::TurnNeedsSubcommand)
        } else {
            assert(seen[2] == words@[2]@);
            if is_word(&words[2], "status") {
                Ok(ConsoleCommand::DebugTurnStatus)
            } else if is_word(&words[2], "execute") {
                Ok(ConsoleCommand::DebugTurnExecute)
            } else {
                Err(ConsoleFault::UnknownTurnSubcommand)
            }
        }
    } else {
        Err(ConsoleFault::UnknownSubcommand)
    }
}

/// The command that words stand for, or why they stand for none.
pub fn command_of(words: &Vec<String>) -> (command: Result<ConsoleCommand, ConsoleFault>)
    ensures
        command == spec_command(words@.map_values(|w: String| w@)),
{
    let reveal_id = if words.len() == 3 {
        assert(words@.map_values(|w: String| w@)[2] == words@[2]@);
        parse_uuid(words[2].as_str())
    } else {
        None
    };
    command_with(words, reveal_id)
}

/// The command that a line of input stands for, or why it stands for none.
pub fn parse_command_input(line: &str) -> (command: Result<ConsoleCommand, ConsoleFault>)
    ensures
        command == spec_command(spec_words(line@)),
{
    let words = split_words(line);
    assert(words@.map_values(|w: String| w@) =~= spec_words(line@));
    command_of(&words)
}

} // verus!
