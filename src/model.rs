use vstd::prelude::*;

verus! {

/// A player's most recent game: its score and how long it took.
#[derive(Clone, Copy, Debug, PartialEq, Eq, Structural)]
pub struct Game {
    pub score: u64,
    pub game_time: u64,
}

/// One leaderboard line: a score and the player who made it.
pub type Entry = (u64, String);

} // verus!
