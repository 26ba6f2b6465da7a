use crate::error::ContractError;
use crate::model::{Entry, Game};
use crate::msg::{GameRecorded, GetRankResponse, GetScoreByPlayerResponse, GetTotalResponse};
use crate::ranking::{
    insert_ranked, lemma_ranked_insert_sorted, lemma_ranked_insert_split, ranked_insert,
    sorted_desc,
};
use vstd::hash_map::StringHashMap;
use vstd::prelude::*;

verus! {

/// The abstract state: games recorded, the ranking, and each player's latest game.
pub type BoardView = (nat, Seq<Entry>, Map<Seq<char>, Game>);

/// One submitted game: player, score, duration.
pub type Submission = (String, u64, u64);

/// The state right after instantiation by `creator`.
pub open spec fn initial(creator: Seq<char>) -> BoardView {
    (0, Seq::empty(), Map::empty().insert(creator, Game { score: 0, game_time: 0 }))
}

/// The state after one more game.
pub open spec fn submitted(v: BoardView, s: Submission) -> BoardView {
    (
        v.0 + 1,
        ranked_insert(v.1, (s.1, s.0)),
        v.2.insert(s.0@, Game { score: s.1, game_time: s.2 }),
    )
}

/// The state after instantiation by `creator` and then the games of `subs`, in order.
pub open spec fn replay(creator: Seq<char>, subs: Seq<Submission>) -> BoardView
    decreases subs.len(),
{
    if subs.len() == 0 {
        initial(creator)
    } else {
        submitted(replay(creator, subs.drop_last()), subs.last())
    }
}

/// The counter, the ranking and the player records of one instance.
pub struct Scoreboard {
    total: u64,
    rank: Vec<Entry>,
    games: StringHashMap<Game>,
}

impl View for Scoreboard {
    type V = BoardView;

    closed spec fn view(&self) -> BoardView {
        (self.total as nat, self.rank@, self.games@)
    }
}

impl Scoreboard {
    /// The count equals the ranking's length and the ranking is descending.
    pub open spec fn wf(&self) -> bool {
        self@.0 == self@.1.len() && self@.0 <= u64::MAX && sorted_desc(self@.1)
    }

    /// A fresh board: no games, an empty ranking, and `creator` registered
    /// with a zero game.
    pub fn instantiate(creator: String) -> (r: Scoreboard)
        ensures
            r.wf(),
            r@ == initial(creator@),
    {
        let mut games = StringHashMap::new();
        games.insert(creator, Game { score: 0, game_time: 0 });
        Scoreboard { total: 0, rank: Vec::new(), games }
    }
}

/// The count after one more game.
pub fn next_total(total: u64) -> (r: u64)
    requires
        total < u64::MAX,
    ensures
        r == total + 1,
{
    total + 1
}

/// Records a game of `player`: the count goes up by one, `(score, player)`
/// takes its place in the ranking after every entry with a score at least
/// `score`, and the player's record becomes this game.
pub fn new_game(board: &mut Scoreboard, player: String, score: u64, game_time: u64) -> (r: Result<
    GameRecorded,
    ContractError,
>)
    requires
        old(board).wf(),
        old(board)@.0 < u64::MAX,
    ensures
        final(board).wf(),
        final(board)@ == submitted(old(board)@, (player, score, game_time)),
        r == Ok::<GameRecorded, ContractError>(GameRecorded { player, score, game_time }),
{
    board.total = next_total(board.total);
    insert_ranked(&mut board.rank, score, player.clone());
    board.games.insert(player.clone(), Game { score, game_time });
    Ok(GameRecorded { player, score, game_time })
}

/// The whole ranking, in order.
pub fn get_rank(board: &Scoreboard) -> (r: Result<GetRankResponse, ContractError>)
    ensures
        r matches Ok(resp) && resp.rank@ == board@.1,
{
    let mut rank: Vec<Entry> = Vec::new();
    let mut i: usize = 0;
    while i < board.rank.len()
        invariant
            i <= board.rank@.len(),
            rank@ == board.rank@.take(i as int),
        decreases board.rank@.len() - i,
    {
        let e = &board.rank[i];
        rank.push((e.0, e.1.clone()));
        i = i + 1;
        proof {
            assert(rank@ =~= board.rank@.take(i as int));
        }
    }
    proof {
        assert(rank@ =~= board.rank@);
    }
    Ok(GetRankResponse { rank })
}

/// The score of `player`'s latest game; `NotFound` if there is none.
pub fn get_score_by_player(board: &Scoreboard, player: &String) -> (r: Result<
    GetScoreByPlayerResponse,
    ContractError,
>)
    ensures
        board@.2.contains_key(player@) ==> r == Ok::<GetScoreByPlayerResponse, ContractError>(
            GetScoreByPlayerResponse { score: board@.2[player@].score },
        ),
        !board@.2.contains_key(player@) ==> r == Err::<GetScoreByPlayerResponse, ContractError>(
            ContractError::NotFound,
        ),
{
    match board.games.get(player.as_str()) {
        Some(g) => Ok(GetScoreByPlayerResponse { score: g.score }),
        None => Err(ContractError::NotFound),
    }
}

/// The number of games recorded.
pub fn get_total(board: &Scoreboard) -> (r: Result<GetTotalResponse, ContractError>)
    ensures
        r matches Ok(resp) && resp.total == board@.0,
{
    Ok(GetTotalResponse { total: board.total })
}

/// Right after instantiation there are no games and no ranking, and the
/// creator's record is a zero game.
pub proof fn lemma_initial_state(creator: Seq<char>)
    ensures
        initial(creator).0 == 0,
        initial(creator).1.len() == 0,
        initial(creator).2.contains_key(creator),
        initial(creator).2[creator] == (Game { score: 0, game_time: 0 }),
        sorted_desc(initial(creator).1),
{
}

/// On a descending ranking, a new entry goes in at a position `k` such that
/// every earlier entry, in particular every one with an equal score, stays
/// ahead of it and every entry from `k` on has a lower score.
pub proof fn lemma_ties_keep_arrival_order(r: Seq<Entry>, e: Entry) -> (k: int)
    requires
        sorted_desc(r),
    ensures
        0 <= k <= r.len(),
        ranked_insert(r, e) == r.take(k).push(e) + r.skip(k),
        forall|i: int| 0 <= i < k ==> r[i].0 >= e.0,
        forall|i: int| k <= i < r.len() ==> r[i].0 < e.0,
    decreases r.len(),
{
    if r.len() == 0 || r.last().0 >= e.0 {
        let k = r.len() as int;
        lemma_ranked_insert_split(r, e, k);
        k
    } else {
        let k = lemma_ties_keep_arrival_order(r.drop_last(), e);
        assert forall|i: int| k <= i < r.len() implies r[i].0 < e.0 by {
            if i < r.len() - 1 {
                assert(r[i] == r.drop_last()[i]);
            }
        }
        assert forall|i: int| 0 <= i < k implies r[i].0 >= e.0 by {
            assert(r[i] == r.drop_last()[i]);
        }
        lemma_ranked_insert_split(r, e, k);
        k
    }
}

/// After any sequence of games, the count and the ranking's length both
/// equal the number of games, and the ranking is descending.
pub proof fn lemma_replay_counts_and_order(creator: Seq<char>, subs: Seq<Submission>)
    ensures
        replay(creator, subs).0 == subs.len(),
        replay(creator, subs).1.len() == subs.len(),
        sorted_desc(replay(creator, subs).1),
    decreases subs.len(),
{
    if subs.len() > 0 {
        lemma_replay_counts_and_order(creator, subs.drop_last());
        lemma_ranked_insert_sorted(
            replay(creator, subs.drop_last()).1,
            (subs.last().1, subs.last().0),
        );
    }
}

/// Of two games of one player, the record keeps the later one, while the
/// ranking holds both.
pub proof fn lemma_last_write_wins(v: BoardView, p: String, s1: u64, t1: u64, s2: u64, t2: u64)
    requires
        sorted_desc(v.1),
    ensures
        submitted(submitted(v, (p, s1, t1)), (p, s2, t2)).2[p@] == (Game { score: s2, game_time: t2 }),
        submitted(submitted(v, (p, s1, t1)), (p, s2, t2)).1.contains((s1, p)),
        submitted(submitted(v, (p, s1, t1)), (p, s2, t2)).1.contains((s2, p)),
{
    let r1 = ranked_insert(v.1, (s1, p));
    lemma_ranked_insert_sorted(v.1, (s1, p));
    let k1 = lemma_ties_keep_arrival_order(v.1, (s1, p));
    assert(r1[k1] == (s1, p));
    let k2 = lemma_ties_keep_arrival_order(r1, (s2, p));
    let r2 = ranked_insert(r1, (s2, p));
    assert(r2[k2] == (s2, p));
    if k1 < k2 {
        assert(r2[k1] == (s1, p));
    } else {
        assert(r2[k1 + 1] == (s1, p));
    }
}

/// A player who is not the creator and submitted no game has no record.
pub proof fn lemma_unknown_player(creator: Seq<char>, subs: Seq<Submission>, p: Seq<char>)
    requires
        p != creator,
        forall|i: int| 0 <= i < subs.len() ==> subs[i].0@ != p,
    ensures
        !replay(creator, subs).2.contains_key(p),
    decreases subs.len(),
{
    if subs.len() > 0 {
        let rest = subs.drop_last();
        assert forall|i: int| 0 <= i < rest.len() implies rest[i].0@ != p by {
            assert(rest[i] == subs[i]);
        }
        lemma_unknown_player(creator, rest, p);
        assert(subs.last() == subs[subs.len() - 1]);
    }
}

} // verus!
