use cw_counter::contract::{execute, instantiate, query};
use cw_counter::msg::{ExecuteMsg, InstantiateMsg, QueryMsg, QueryResponse};
use cw_counter::scoreboard::Scoreboard;
use cw_counter::ContractError;

fn setup(creator: &str) -> Option<Scoreboard> {
    let mut state = None;
    instantiate(&mut state, creator.to_string(), InstantiateMsg {}).unwrap();
    state
}

fn play(state: &mut Option<Scoreboard>, player: &str, score: u64, game_time: u64) {
    let msg = ExecuteMsg::NewGame { player: player.to_string(), score, game_time };
    execute(state, "anyone".to_string(), msg).unwrap();
}

fn total(state: &Option<Scoreboard>) -> u64 {
    match query(state, QueryMsg::GetTotal {}).unwrap() {
        QueryResponse::Total(t) => t.total,
        other => panic!("unexpected answer {:?}", other),
    }
}

fn rank(state: &Option<Scoreboard>) -> Vec<(u64, String)> {
    match query(state, QueryMsg::GetRank {}).unwrap() {
        QueryResponse::Rank(r) => r.rank,
        other => panic!("unexpected answer {:?}", other),
    }
}

fn score_of(state: &Option<Scoreboard>, player: &str) -> Result<u64, ContractError> {
    match query(state, QueryMsg::GetScoreByPlayer { player: player.to_string() }) {
        Ok(QueryResponse::ScoreByPlayer(s)) => Ok(s.score),
        Ok(other) => panic!("unexpected answer {:?}", other),
        Err(e) => Err(e),
    }
}

fn entry(score: u64, player: &str) -> (u64, String) {
    (score, player.to_string())
}

#[test]
fn proper_initialization() {
    let mut state = None;
    let res = instantiate(&mut state, "creator".to_string(), InstantiateMsg {});
    assert_eq!(Ok(()), res);
    assert_eq!(0, total(&state));
    assert_eq!(0, rank(&state).len());
}

#[test]
fn single_player_game() {
    let mut state = setup("creator");
    play(&mut state, "player1", 100, 60);
    assert_eq!(Ok(100), score_of(&state, "player1"));
    assert_eq!(1, total(&state));
    let r = rank(&state);
    assert_eq!(1, r.len());
    assert_eq!(entry(100, "player1"), r[0]);
}

#[test]
fn multiple_players_games() {
    let mut state = setup("creator");
    let players = vec![("alice", 150, 45), ("bob", 200, 30), ("charlie", 75, 90), ("diana", 300, 25)];
    for (player, score, game_time) in &players {
        play(&mut state, player, *score, *game_time);
    }
    assert_eq!(4, total(&state));
    for (player, expected_score, _) in &players {
        assert_eq!(Ok(*expected_score), score_of(&state, player));
    }
    let r = rank(&state);
    assert_eq!(4, r.len());
    assert_eq!(entry(300, "diana"), r[0]);
    assert_eq!(entry(200, "bob"), r[1]);
    assert_eq!(entry(150, "alice"), r[2]);
    assert_eq!(entry(75, "charlie"), r[3]);
}

#[test]
fn player_updates_score() {
    let mut state = setup("creator");
    play(&mut state, "player1", 100, 60);
    play(&mut state, "player1", 250, 45);
    assert_eq!(Ok(250), score_of(&state, "player1"));
    assert_eq!(2, total(&state));
    let r = rank(&state);
    assert_eq!(2, r.len());
    assert_eq!(entry(250, "player1"), r[0]);
    assert_eq!(entry(100, "player1"), r[1]);
}

#[test]
fn query_nonexistent_player() {
    let state = setup("creator");
    let res = score_of(&state, "nonexistent");
    assert!(res.is_err());
}

#[test]
fn test_multiple_players_integration() {
    let mut state = setup("admin");
    play(&mut state, "alice", 150, 60);
    play(&mut state, "bob", 200, 45);
    play(&mut state, "charlie", 100, 75);
    assert_eq!(3, total(&state));
    assert_eq!(Ok(150), score_of(&state, "alice"));
    assert_eq!(Ok(200), score_of(&state, "bob"));
    let r = rank(&state);
    assert_eq!(3, r.len());
    assert_eq!(entry(200, "bob"), r[0]);
    assert_eq!(entry(150, "alice"), r[1]);
    assert_eq!(entry(100, "charlie"), r[2]);
}

#[test]
fn test_player_improvement() {
    let mut state = setup("admin");
    play(&mut state, "alice", 100, 60);
    play(&mut state, "alice", 250, 45);
    assert_eq!(Ok(250), score_of(&state, "alice"));
    let r = rank(&state);
    assert_eq!(2, r.len());
    assert_eq!(entry(250, "alice"), r[0]);
    assert_eq!(entry(100, "alice"), r[1]);
    assert_eq!(2, total(&state));
}

#[test]
fn test_competitive_scenario() {
    let mut state = setup("admin");
    let games = vec![
        ("alice", 180, 50),
        ("bob", 220, 40),
        ("charlie", 160, 65),
        ("alice", 240, 35),
        ("bob", 200, 45),
        ("charlie", 280, 30),
    ];
    for (player, score, game_time) in games {
        play(&mut state, player, score, game_time);
    }
    let r = rank(&state);
    assert_eq!(6, r.len());
    assert_eq!(entry(280, "charlie"), r[0]);
    assert_eq!(Ok(280), score_of(&state, "charlie"));
    assert_eq!(Ok(240), score_of(&state, "alice"));
    assert_eq!(Ok(200), score_of(&state, "bob"));
    assert_eq!(6, total(&state));
}

#[test]
fn creator_is_registered_with_zero_game() {
    let state = setup("creator");
    assert_eq!(Ok(0), score_of(&state, "creator"));
    assert_eq!(Vec::<(u64, String)>::new(), rank(&state));
}

#[test]
fn second_instantiate_is_refused() {
    let mut state = setup("creator");
    play(&mut state, "alice", 10, 1);
    let res = instantiate(&mut state, "other".to_string(), InstantiateMsg {});
    assert_eq!(Err(ContractError::AlreadyInitialized), res);
    assert_eq!(1, total(&state));
    assert_eq!(Err(ContractError::NotFound), score_of(&state, "other"));
}

#[test]
fn uninitialized_instance_fails() {
    let mut state: Option<Scoreboard> = None;
    let msg = ExecuteMsg::NewGame { player: "p".to_string(), score: 1, game_time: 1 };
    assert_eq!(Err(ContractError::NotFound), execute(&mut state, "anyone".to_string(), msg));
    assert!(state.is_none());
    assert_eq!(Err(ContractError::NotFound), query(&state, QueryMsg::GetTotal {}));
}

#[test]
fn new_game_echoes_submission() {
    let mut state = setup("creator");
    let msg = ExecuteMsg::NewGame { player: "p".to_string(), score: 7, game_time: 9 };
    let rec = execute(&mut state, "anyone".to_string(), msg).unwrap();
    assert_eq!("p", rec.player);
    assert_eq!(7, rec.score);
    assert_eq!(9, rec.game_time);
}

#[test]
fn equal_scores_keep_arrival_order() {
    let mut state = setup("creator");
    play(&mut state, "a", 50, 1);
    play(&mut state, "b", 80, 1);
    play(&mut state, "c", 50, 1);
    play(&mut state, "d", 80, 1);
    play(&mut state, "e", 50, 1);
    assert_eq!(
        vec![entry(80, "b"), entry(80, "d"), entry(50, "a"), entry(50, "c"), entry(50, "e")],
        rank(&state)
    );
}

#[test]
fn count_and_rank_grow_by_one_per_game() {
    let mut state = setup("creator");
    for i in 0..10u64 {
        play(&mut state, "same", i * 7 % 5, i);
        assert_eq!(i + 1, total(&state));
        let r = rank(&state);
        assert_eq!((i + 1) as usize, r.len());
        for w in r.windows(2) {
            assert!(w[0].0 >= w[1].0);
        }
    }
}

#[test]
fn last_write_wins_keeps_both_in_rank() {
    let mut state = setup("creator");
    play(&mut state, "p", 300, 10);
    play(&mut state, "p", 20, 99);
    assert_eq!(Ok(20), score_of(&state, "p"));
    assert_eq!(vec![entry(300, "p"), entry(20, "p")], rank(&state));
}

#[test]
fn player_names_are_case_sensitive() {
    let mut state = setup("creator");
    play(&mut state, "Alice", 5, 5);
    assert_eq!(Err(ContractError::NotFound), score_of(&state, "alice"));
    assert_eq!(Ok(5), score_of(&state, "Alice"));
}
