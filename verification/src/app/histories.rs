//! The match histories of players, as far as finding premade groups needs them: which
//! games a player took part in, and which of them were won.

use crate::json::{array_view, lemma_array_step, lemma_array_view, Json, JsonView};
use crate::lcu::api::match_history::{games_in, history_games};
use crate::lcu::api::{json_result, ErrorView, LcuApiError};
use crate::text::str_eq;
use std::collections::HashMap;
use vstd::prelude::*;

verus! {

/// The games of a player, each with whether it was won.
pub struct GameWins {
    games: HashMap<i64, bool>,
}

impl View for GameWins {
    type V = Map<i64, bool>;

    closed spec fn view(&self) -> Map<i64, bool> {
        self.games@
    }
}

impl GameWins {
    /// No games.
    pub fn new() -> (r: GameWins)
        ensures
            r@ == Map::<i64, bool>::empty(),
    {
        GameWins { games: HashMap::new() }
    }

    /// Adds a game, in place of an earlier entry for it.
    pub fn insert(self, id: i64, win: bool) -> (r: GameWins)
        ensures
            r@ == self@.insert(id, win),
    {
        broadcast use vstd::std_specs::hash::group_hash_axioms;

        let mut games = self.games;
        games.insert(id, win);
        GameWins { games }
    }

    /// Whether a game was won, if the player took part in it.
    pub fn get(&self, id: i64) -> (r: Option<bool>)
        ensures
            r == if self@.contains_key(id) {
                Some(self@[id])
            } else {
                None
            },
    {
        broadcast use vstd::std_specs::hash::group_hash_axioms;

        match self.games.get(&id) {
            Some(win) => Some(*win),
            None => None,
        }
    }
}

/// The games that two players have in common, with the same result.
pub open spec fn common_games(a: Map<i64, bool>, b: Map<i64, bool>) -> Set<i64> {
    Set::new(|id: i64| a.contains_key(id) && b.contains_key(id) && a[id] == b[id])
}

/// How many games two players have in common with the same result. A player without a
/// history has none.
pub open spec fn common_count(a: Option<Map<i64, bool>>, b: Option<Map<i64, bool>>) -> nat {
    match (a, b) {
        (Some(a), Some(b)) => common_games(a, b).len(),
        _ => 0,
    }
}

/// The view of a history that may be missing.
pub open spec fn wins_view(w: Option<&GameWins>) -> Option<Map<i64, bool>> {
    match w {
        Some(w) => Some(w@),
        None => None,
    }
}

/// The first games of a list that two players have in common, with one game more.
proof fn lemma_common_step(ids: Seq<i64>, common: Set<i64>, i: int)
    requires
        0 <= i < ids.len(),
        ids.no_duplicates(),
    ensures
        ids.take(i + 1).to_set().intersect(common).len() == ids.take(i).to_set().intersect(
            common,
        ).len() + if common.contains(ids[i]) {
            1int
        } else {
            0
        },
{
    let first = ids.take(i);
    let more = ids.take(i + 1);
    let before = first.to_set();
    let after = more.to_set();
    vstd::seq_lib::seq_to_set_is_finite(first);
    assert(!before.contains(ids[i]));
    assert(more[i] == ids[i]);
    assert forall|id: i64| after.contains(id) == before.insert(ids[i]).contains(id) by {
        if after.contains(id) && id != ids[i] {
            let k = more.index_of(id);
            assert(first[k] == id);
        }
        if before.contains(id) {
            let k = first.index_of(id);
            assert(more[k] == id);
        }
    }
    if common.contains(ids[i]) {
        assert(after.intersect(common) =~= before.intersect(common).insert(ids[i]));
    } else {
        assert(after.intersect(common) =~= before.intersect(common));
    }
}

/// Counts the games that two players have in common with the same result.
pub fn count_common_games(a: Option<&GameWins>, b: Option<&GameWins>) -> (r: usize)
    ensures
        r == common_count(wins_view(a), wins_view(b)),
{
    broadcast use vstd::std_specs::hash::group_hash_axioms;

    match (a, b) {
        (Some(a), Some(b)) => {
            let ghost common = common_games(a@, b@);
            let size: usize = a.games.len();
            let mut count: usize = 0;
            proof {
                assert forall|ids: Seq<i64>| #[trigger] ids.take(0).to_set().intersect(common).len()
                    == 0 by {
                    assert(ids.take(0).to_set().intersect(common) =~= Set::empty());
                }
            }
            for id in it: a.games.keys()
                invariant
                    size == it.seq().len(),
                    it.seq().unref().no_duplicates(),
                    it.seq().unref().to_set() == a@.dom(),
                    common == common_games(a@, b@),
                    count <= it.index(),
                    count == it.seq().unref().take(it.index() as int).to_set().intersect(
                        common,
                    ).len(),
            {
                proof {
                    lemma_common_step(it.seq().unref(), common, it.index() as int);
                    assert(a@.dom().contains(it.seq().unref()[it.index() as int]));
                }
                if a.get(*id) == b.get(*id) {
                    count += 1;
                }
            }
            proof {
                assert forall|ids: Seq<i64>, n: int| n == ids.len() implies #[trigger] ids.take(n)
                    == ids by {
                    assert(ids.take(n) =~= ids);
                }
                assert(a@.dom().intersect(common) =~= common);
            }
            count
        },
        _ => 0,
    }
}

/// Two players have as many games in common whichever of them is asked first.
pub proof fn lemma_common_count_symmetric(a: Option<Map<i64, bool>>, b: Option<Map<i64, bool>>)
    ensures
        common_count(a, b) == common_count(b, a),
{
    if a is Some && b is Some {
        assert(common_games(a->0, b->0) =~= common_games(b->0, a->0));
    }
}

/// There are finitely many games in a history.
pub proof fn law_history_is_finite(w: GameWins)
    ensures
        w@.dom().finite(),
{
    broadcast use vstd::std_specs::hash::group_hash_axioms;

}

/// Two players have at most as many games in common as either of them has played; a player
/// has all of their own games in common with themselves, and none with somebody who had the
/// opposite result in each of them.
pub proof fn law_common_count_bounds(a: GameWins, b: GameWins)
    ensures
        common_count(Some(a@), Some(b@)) <= a@.len(),
        common_count(Some(a@), Some(b@)) <= b@.len(),
        common_count(Some(a@), Some(a@)) == a@.len(),
        common_count(Some(a@), Some(a@.map_values(|won: bool| !won))) == 0,
{
    law_history_is_finite(a);
    law_history_is_finite(b);
    let common = common_games(a@, b@);
    assert(common.subset_of(a@.dom()) && common.subset_of(b@.dom()));
    vstd::set_lib::lemma_len_subset(common, a@.dom());
    vstd::set_lib::lemma_len_subset(common, b@.dom());
    assert(common_games(a@, a@) =~= a@.dom());
    assert(common_games(a@, a@.map_values(|won: bool| !won)) =~= Set::empty());
}

/// The histories of some players, by their identifiers.
pub struct Histories {
    entries: Vec<(String, GameWins)>,
}

spec fn histories_map(entries: Seq<(String, GameWins)>) -> Map<Seq<char>, Map<i64, bool>>
    decreases entries.len(),
{
    if entries.len() == 0 {
        Map::empty()
    } else {
        histories_map(entries.drop_last()).insert(entries.last().0@, entries.last().1@)
    }
}

impl View for Histories {
    type V = Map<Seq<char>, Map<i64, bool>>;

    closed spec fn view(&self) -> Map<Seq<char>, Map<i64, bool>> {
        histories_map(self.entries@)
    }
}

proof fn lemma_histories_at(entries: Seq<(String, GameWins)>, puuid: Seq<char>, i: int)
    requires
        0 <= i < entries.len(),
        entries[i].0@ == puuid,
        forall|k: int| i < k < entries.len() ==> #[trigger] entries[k].0@ != puuid,
    ensures
        histories_map(entries).contains_key(puuid),
        histories_map(entries)[puuid] == entries[i].1@,
    decreases entries.len(),
{
    if i < entries.len() - 1 {
        assert(entries[entries.len() - 1].0@ != puuid);
        assert forall|k: int| i < k < entries.drop_last().len() implies #[trigger] entries.drop_last()[k].0@
            != puuid by {
            assert(entries.drop_last()[k] == entries[k]);
        }
        lemma_histories_at(entries.drop_last(), puuid, i);
    }
}

proof fn lemma_histories_missing(entries: Seq<(String, GameWins)>, puuid: Seq<char>)
    requires
        forall|k: int| 0 <= k < entries.len() ==> #[trigger] entries[k].0@ != puuid,
    ensures
        !histories_map(entries).contains_key(puuid),
    decreases entries.len(),
{
    if entries.len() > 0 {
        assert(entries[entries.len() - 1].0@ != puuid);
        assert forall|k: int| 0 <= k < entries.drop_last().len() implies #[trigger] entries.drop_last()[k].0@
            != puuid by {
            assert(entries.drop_last()[k] == entries[k]);
        }
        lemma_histories_missing(entries.drop_last(), puuid);
    }
}

/// There are finitely many histories, each with finitely many games.
pub proof fn law_histories_are_finite(h: Histories, puuid: Seq<char>)
    ensures
        h@.dom().finite(),
        h@.contains_key(puuid) ==> h@[puuid].dom().finite(),
{
    lemma_histories_finite(h.entries@, puuid);
}

proof fn lemma_histories_finite(entries: Seq<(String, GameWins)>, puuid: Seq<char>)
    ensures
        histories_map(entries).dom().finite(),
        histories_map(entries).contains_key(puuid) ==> histories_map(entries)[puuid].dom().finite(),
    decreases entries.len(),
{
    if entries.len() > 0 {
        lemma_histories_finite(entries.drop_last(), puuid);
        law_history_is_finite(entries.last().1);
    }
}

/// The history of a player, if there is one.
pub open spec fn history_of(
    histories: Map<Seq<char>, Map<i64, bool>>,
    puuid: Seq<char>,
) -> Option<Map<i64, bool>> {
    if histories.contains_key(puuid) {
        Some(histories[puuid])
    } else {
        None
    }
}

impl Histories {
    /// No histories.
    pub fn new() -> (r: Histories)
        ensures
            r@ == Map::<Seq<char>, Map<i64, bool>>::empty(),
    {
        Histories { entries: Vec::new() }
    }

    /// Adds a player's history, in place of an earlier one.
    pub fn insert(&mut self, puuid: String, wins: GameWins)
        ensures
            final(self)@ == old(self)@.insert(puuid@, wins@),
    {
        let ghost before = self.entries@;
        self.entries.push((puuid, wins));
        assert(self.entries@.drop_last() =~= before);
    }

    /// The history of a player, if there is one.
    pub fn get(&self, puuid: &str) -> (r: Option<&GameWins>)
        ensures
            wins_view(r) == history_of(self@, puuid@),
    {
        let mut i: usize = self.entries.len();
        while i > 0
            invariant
                i <= self.entries@.len(),
                forall|k: int| i <= k < self.entries@.len() ==> #[trigger] self.entries@[k].0@ != puuid@,
            decreases i,
        {
            i -= 1;
            if str_eq(self.entries[i].0.as_str(), puuid) {
                proof {
                    lemma_histories_at(self.entries@, puuid@, i as int);
                }
                return Some(&self.entries[i].1);
            }
        }
        proof {
            lemma_histories_missing(self.entries@, puuid@);
        }
        None
    }
}

/// Histories as the contracts speak of them.
pub type HistoriesView = Map<Seq<char>, Map<i64, bool>>;

/// Whether the first participant of a game, who is the player whose history it is, won.
pub open spec fn first_won(game: JsonView) -> bool {
    match game.items_field("participants"@) {
        Some(players) => if players.len() > 0 {
            match players[0].field("stats"@) {
                Some(stats) => stats.truth_field("win"@) == Some(true),
                None => false,
            }
        } else {
            false
        },
        None => false,
    }
}

/// The games with an identifier, each with whether it was won; of two with the same
/// identifier the later one counts.
pub open spec fn wins_in(games: Seq<JsonView>) -> Map<i64, bool>
    decreases games.len(),
{
    if games.len() == 0 {
        Map::empty()
    } else {
        match games.last().integer_field("gameId"@) {
            Some(id) => wins_in(games.drop_last()).insert(id, first_won(games.last())),
            None => wins_in(games.drop_last()),
        }
    }
}

/// The games of a history as the client gives it. One without a list of games has none.
pub open spec fn history_wins(history: JsonView) -> Map<i64, bool> {
    match games_in(history) {
        Some(games) => wins_in(games),
        None => Map::empty(),
    }
}

fn won_by_first(game: &Json) -> (r: bool)
    ensures
        r == first_won(game@),
{
    match game.get_array("participants") {
        Some(players) => {
            proof {
                lemma_array_view(players@);
            }
            if players.len() > 0 {
                match players[0].get("stats") {
                    Some(stats) => match stats.get_bool("win") {
                        Some(win) => win,
                        None => false,
                    },
                    None => false,
                }
            } else {
                false
            }
        },
        None => false,
    }
}

/// Reads the games of a history.
pub fn read_game_wins(history: &Json) -> (r: GameWins)
    ensures
        r@ == history_wins(history@),
{
    let mut wins = GameWins::new();
    match history_games(history) {
        Some(games) => {
            proof {
                lemma_array_view(games@);
                assert(array_view(games@).subrange(0, 0) =~= Seq::empty());
            }
            let mut i: usize = 0;
            while i < games.len()
                invariant
                    i <= games@.len(),
                    array_view(games@).len() == games@.len(),
                    wins@ == wins_in(array_view(games@).subrange(0, i as int)),
                decreases games@.len() - i,
            {
                proof {
                    lemma_array_step(games@, i as int);
                }
                match games[i].get_i64("gameId") {
                    Some(id) => {
                        wins = wins.insert(id, won_by_first(&games[i]));
                    },
                    None => {},
                }
                i += 1;
            }
            assert(array_view(games@).subrange(0, games@.len() as int) =~= array_view(games@));
        },
        None => {},
    }
    wins
}

/// The histories of some players from the client's answers, in the order in which they
/// came. A player whose history could not be had has none of their games known.
pub open spec fn histories_from(
    answers: Seq<(Seq<char>, Result<JsonView, ErrorView>)>,
) -> HistoriesView
    decreases answers.len(),
{
    if answers.len() == 0 {
        Map::empty()
    } else {
        let (puuid, answer) = answers.last();
        histories_from(answers.drop_last()).insert(
            puuid,
            match answer {
                Ok(history) => history_wins(history),
                Err(_) => Map::empty(),
            },
        )
    }
}

/// The views of some answers.
pub open spec fn answers_view(v: Seq<(String, Result<Json, LcuApiError>)>) -> Seq<
    (Seq<char>, Result<JsonView, ErrorView>),
> {
    Seq::new(v.len(), |i: int| (v[i].0@, json_result(v[i].1)))
}

/// Puts the histories of some players together.
pub fn collect_histories(answers: &Vec<(String, Result<Json, LcuApiError>)>) -> (r:
    Histories)
    ensures
        r@ == histories_from(answers_view(answers@)),
{
    let mut r = Histories::new();
    assert(answers_view(answers@).subrange(0, 0) =~= Seq::empty());
    let mut i: usize = 0;
    while i < answers.len()
        invariant
            i <= answers@.len(),
            r@ == histories_from(answers_view(answers@).subrange(0, i as int)),
        decreases answers@.len() - i,
    {
        proof {
            let seen = answers_view(answers@).subrange(0, i + 1);
            assert(seen.drop_last() =~= answers_view(answers@).subrange(0, i as int));
            assert(seen.last() == answers_view(answers@)[i as int]);
        }
        let wins = match &answers[i].1 {
            Ok(history) => read_game_wins(history),
            Err(_) => GameWins::new(),
        };
        r.insert(answers[i].0.clone(), wins);
        i += 1;
    }
    assert(answers_view(answers@).subrange(0, answers@.len() as int) =~= answers_view(answers@));
    r
}

} // verus!
