use crate::error::ContractError;
use crate::msg::{ExecuteMsg, GameRecorded, InstantiateMsg, QueryMsg, QueryResponse};
use crate::scoreboard::{
    get_rank, get_score_by_player, get_total, initial, new_game, submitted, Scoreboard,
};
use vstd::prelude::*;

verus! {

/// An instance is ready when it holds a well-formed board.
pub open spec fn ready(state: Option<Scoreboard>) -> bool {
    state matches Some(b) && b.wf()
}

/// Moves an instance from uninitialized to ready, with `sender` registered
/// as a player with a zero game. An instance that already holds a board is
/// left as it is and the call fails with `AlreadyInitialized`.
pub fn instantiate(state: &mut Option<Scoreboard>, sender: String, msg: InstantiateMsg) -> (r:
    Result<(), ContractError>)
    ensures
        old(state).is_some() ==> r == Err::<(), ContractError>(ContractError::AlreadyInitialized)
            && *final(state) == *old(state),
        old(state).is_none() ==> r == Ok::<(), ContractError>(()) && ready(*final(state))
            && final(state).unwrap()@ == initial(sender@),
{
    if state.is_some() {
        return Err(ContractError::AlreadyInitialized);
    }
    *state = Some(Scoreboard::instantiate(sender));
    Ok(())
}

/// Applies a state-changing request to a ready instance. Any caller may
/// record a game for any player. On an uninitialized instance nothing
/// changes and the call fails with `NotFound`.
pub fn execute(state: &mut Option<Scoreboard>, sender: String, msg: ExecuteMsg) -> (r: Result<
    GameRecorded,
    ContractError,
>)
    requires
        old(state).is_some() ==> old(state).unwrap().wf() && old(state).unwrap()@.0 < u64::MAX,
    ensures
        old(state).is_none() ==> r == Err::<GameRecorded, ContractError>(ContractError::NotFound)
            && final(state).is_none(),
        old(state).is_some() ==> match msg {
            ExecuteMsg::NewGame { player, score, game_time } => {
                &&& ready(*final(state))
                &&& final(state).unwrap()@ == submitted(
                    old(state).unwrap()@,
                    (player, score, game_time),
                )
                &&& r == Ok::<GameRecorded, ContractError>(
                    GameRecorded { player, score, game_time },
                )
            },
        },
{
    match state {
        None => Err(ContractError::NotFound),
        Some(board) => match msg {
            ExecuteMsg::NewGame { player, score, game_time } => new_game(
                board,
                player,
                score,
                game_time,
            ),
        },
    }
}

/// Answers a read-only request; the state is not touched. On an
/// uninitialized instance the answer is `NotFound`.
pub fn query(state: &Option<Scoreboard>, msg: QueryMsg) -> (r: Result<
    QueryResponse,
    ContractError,
>)
    ensures
        state.is_none() ==> r == Err::<QueryResponse, ContractError>(ContractError::NotFound),
        state.is_some() ==> match msg {
            QueryMsg::GetTotal {  } => r matches Ok(QueryResponse::Total(t)) && t.total
                == state.unwrap()@.0,
            QueryMsg::GetRank {  } => r matches Ok(QueryResponse::Rank(g)) && g.rank@
                == state.unwrap()@.1,
            QueryMsg::GetScoreByPlayer { player } => if state.unwrap()@.2.contains_key(player@) {
                r matches Ok(QueryResponse::ScoreByPlayer(s)) && s.score == state.unwrap()@.2[player@].score
            } else {
                r == Err::<QueryResponse, ContractError>(ContractError::NotFound)
            },
        },
{
    match state {
        None => Err(ContractError::NotFound),
        Some(board) => match msg {
            QueryMsg::GetTotal {  } => match get_total(board) {
                Ok(t) => Ok(QueryResponse::Total(t)),
                Err(e) => Err(e),
            },
            QueryMsg::GetRank {  } => match get_rank(board) {
                Ok(g) => Ok(QueryResponse::Rank(g)),
                Err(e) => Err(e),
            },
            QueryMsg::GetScoreByPlayer { player } => match get_score_by_player(board, &player) {
                Ok(s) => Ok(QueryResponse::ScoreByPlayer(s)),
                Err(e) => Err(e),
            },
        },
    }
}

} // verus!
