//! Errors raised by the game engine.

use crate::text::{dec_str, usize_to_string};
use vstd::prelude::*;

verus! {

/// Everything that can go wrong while building a game or resolving a turn.
///
/// `OutOfRangeDice` is the one recoverable error during play (the caller
/// re-prompts for a die value); all other kinds are fatal to the session.
#[derive(Clone, Debug, PartialEq, Eq)]
pub enum GameSystemError {
    /// A player name was looked up and not found in the status table.
    NotFoundPlayer(String),
    /// An effect specification named an unknown effect kind.
    NotFoundAreaType(String),
    /// The roster contained the same name twice.
    DuplicatePlayer(String),
    /// The supplied die value lies outside `1..=dice_max`.
    OutOfRangeDice(usize),
    /// A player's position does not index into the area list.
    OutOfRangePosition(String, usize),
    /// The roster is empty.
    NoPlayer,
}

impl GameSystemError {
    /// The report shown to the user for this error.
    pub open spec fn spec_message(self) -> Seq<char> {
        match self {
            GameSystemError::NotFoundPlayer(name) => ("Player is not found: ")@ + name@,
            GameSystemError::NotFoundAreaType(name) => ("Area type is not found: ")@ + name@,
            GameSystemError::DuplicatePlayer(name) => ("duplicate player: ")@ + name@,
            GameSystemError::OutOfRangeDice(dice) => dec_str(dice as int),
            GameSystemError::OutOfRangePosition(name, position) => ("Position is out of range: ")@
                + name@ + (" ")@ + dec_str(position as int),
            GameSystemError::NoPlayer => ("There is no player")@,
        }
    }

    /// Renders the error as text.
    pub fn message(&self) -> (r: String)
        ensures
            r@ == self.spec_message(),
    {
        match self {
            GameSystemError::NotFoundPlayer(name) => {
                let mut s = String::from_str("Player is not found: ");
                s.append(name.as_str());
                s
            },
            GameSystemError::NotFoundAreaType(name) => {
                let mut s = String::from_str("Area type is not found: ");
                s.append(name.as_str());
                s
            },
            GameSystemError::DuplicatePlayer(name) => {
                let mut s = String::from_str("duplicate player: ");
                s.append(name.as_str());
                s
            },
            GameSystemError::OutOfRangeDice(dice) => usize_to_string(*dice),
            GameSystemError::OutOfRangePosition(name, position) => {
                let mut s = String::from_str("Position is out of range: ");
                s.append(name.as_str());
                s.append(" ");
                let rendered = usize_to_string(*position);
                s.append(rendered.as_str());
                s
            },
            GameSystemError::NoPlayer => String::from_str("There is no player"),
        }
    }
}

} // verus!
