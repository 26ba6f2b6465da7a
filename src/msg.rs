use crate::model::Entry;
use vstd::prelude::*;

verus! {

/// The instantiation message; the creator comes from the caller's identity.
#[derive(Clone, Copy, Debug, PartialEq, Eq)]
pub struct InstantiateMsg {}

/// State-changing requests.
#[derive(Clone, Debug, PartialEq, Eq)]
pub enum ExecuteMsg {
    NewGame { player: String, score: u64, game_time: u64 },
}

/// Read-only requests.
#[derive(Clone, Debug, PartialEq, Eq)]
pub enum QueryMsg {
    GetRank {},
    GetScoreByPlayer { player: String },
    GetTotal {},
}

/// The ranking, highest score first.
#[derive(Clone, Debug, PartialEq, Eq)]
pub struct GetRankResponse {
    pub rank: Vec<Entry>,
}

/// A player's latest score.
#[derive(Clone, Copy, Debug, PartialEq, Eq, Structural)]
pub struct GetScoreByPlayerResponse {
    pub score: u64,
}

/// The number of games recorded.
#[derive(Clone, Copy, Debug, PartialEq, Eq, Structural)]
pub struct GetTotalResponse {
    pub total: u64,
}

/// The answer to a query, one variant per request kind.
#[derive(Clone, Debug, PartialEq, Eq)]
pub enum QueryResponse {
    Rank(GetRankResponse),
    ScoreByPlayer(GetScoreByPlayerResponse),
    Total(GetTotalResponse),
}

/// The confirmation of a recorded game, echoing what was submitted.
#[derive(Clone, Debug, PartialEq, Eq)]
pub struct GameRecorded {
    pub player: String,
    pub score: u64,
    pub game_time: u64,
}

} // verus!
