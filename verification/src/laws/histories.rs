//! What histories say of the games of players.

use crate::app::histories::{
    common_count, common_games, first_won, histories_from, history_of, history_wins, wins_in,
};
use crate::json::JsonView;
use crate::lcu::api::ErrorView;
use crate::lcu::api::match_history::games_in;
use vstd::prelude::*;

verus! {

/// The value is a history with these games: an object that lists them under `games`, or
/// under the `games` of its `games`.
pub open spec fn lists_games(history: JsonView, games: Seq<JsonView>) -> bool {
    match history {
        JsonView::Object(h) => h.contains_key("games"@) && (h["games"@] == JsonView::Array(games) || (
        h["games"@] matches JsonView::Object(g) && g.contains_key("games"@) && g["games"@]
            == JsonView::Array(games))),
        _ => false,
    }
}

/// The entry of a game gives its identifier.
pub open spec fn is_game(game: JsonView, id: i64) -> bool {
    match game {
        JsonView::Object(g) => g.contains_key("gameId"@) && (g["gameId"@]
            matches JsonView::Number(n) && crate::json::number_integer(n) == Some(id)),
        _ => false,
    }
}

/// The entry of a game says of its first participant whether they won.
pub open spec fn says(game: JsonView, won: bool) -> bool {
    match game {
        JsonView::Object(g) => {
            &&& g.contains_key("participants"@)
            &&& g["participants"@] matches JsonView::Array(players)
            &&& players.len() > 0
            &&& players[0] matches JsonView::Object(p)
            &&& p.contains_key("stats"@)
            &&& p["stats"@] matches JsonView::Object(stats)
            &&& stats.contains_key("win"@)
            &&& stats["win"@] == JsonView::Bool(won)
        },
        _ => false,
    }
}

proof fn lemma_wins_last(games: Seq<JsonView>, i: int, id: i64)
    requires
        0 <= i < games.len(),
        games[i].integer_field("gameId"@) == Some(id),
        forall|k: int|
            i < k < games.len() ==> (#[trigger] games[k]).integer_field("gameId"@) != Some(id),
    ensures
        wins_in(games).contains_key(id),
        wins_in(games)[id] == first_won(games[i]),
    decreases games.len(),
{
    if i < games.len() - 1 {
        assert(games[games.len() - 1].integer_field("gameId"@) != Some(id));
        assert forall|k: int| i < k < games.drop_last().len() implies (
        #[trigger] games.drop_last()[k]).integer_field("gameId"@) != Some(id) by {
            assert(games.drop_last()[k] == games[k]);
        }
        lemma_wins_last(games.drop_last(), i, id);
    }
}

proof fn lemma_wins_listed(games: Seq<JsonView>, id: i64)
    ensures
        wins_in(games).contains_key(id) <==> exists|i: int|
            0 <= i < games.len() && (#[trigger] games[i]).integer_field("gameId"@) == Some(id),
    decreases games.len(),
{
    if games.len() > 0 {
        let rest = games.drop_last();
        lemma_wins_listed(rest, id);
        assert(forall|i: int| 0 <= i < rest.len() ==> #[trigger] games[i] == rest[i]);
        assert(games[games.len() - 1] == games.last());
        if wins_in(rest).contains_key(id) {
            let i = choose|i: int|
                0 <= i < rest.len() && (#[trigger] rest[i]).integer_field("gameId"@) == Some(id);
            assert(games[i].integer_field("gameId"@) == Some(id));
        }
    }
}

/// A game is recorded as won where its entry says that the first participant won, and as
/// lost where it says that they lost; of two entries for one game the later one counts.
pub proof fn law_result_is_recorded(
    history: JsonView,
    games: Seq<JsonView>,
    i: int,
    id: i64,
    won: bool,
)
    requires
        lists_games(history, games),
        0 <= i < games.len(),
        is_game(games[i], id),
        says(games[i], won),
        forall|k: int| i < k < games.len() ==> !is_game(#[trigger] games[k], id),
    ensures
        history_wins(history).contains_key(id),
        history_wins(history)[id] == won,
{
    assert forall|k: int| i < k < games.len() implies (#[trigger] games[k]).integer_field(
        "gameId"@,
    ) != Some(id) by {
        assert(!is_game(games[k], id));
    }
    lemma_wins_last(games, i, id);
}

/// A game whose entry does not say that the first participant won is not recorded as won.
pub proof fn law_silence_is_no_win(history: JsonView, games: Seq<JsonView>, i: int, id: i64)
    requires
        lists_games(history, games),
        0 <= i < games.len(),
        is_game(games[i], id),
        !says(games[i], true),
        forall|k: int| i < k < games.len() ==> !is_game(#[trigger] games[k], id),
    ensures
        history_wins(history).contains_key(id),
        !history_wins(history)[id],
{
    assert forall|k: int| i < k < games.len() implies (#[trigger] games[k]).integer_field(
        "gameId"@,
    ) != Some(id) by {
        assert(!is_game(games[k], id));
    }
    lemma_wins_last(games, i, id);
}

/// A history records the games that it lists and no others.
pub proof fn law_listed_games_are_recorded(history: JsonView, games: Seq<JsonView>, id: i64)
    requires
        lists_games(history, games),
    ensures
        history_wins(history).contains_key(id) <==> exists|i: int|
            0 <= i < games.len() && is_game(#[trigger] games[i], id),
{
    lemma_wins_listed(games, id);
    if history_wins(history).contains_key(id) {
        let i = choose|i: int|
            0 <= i < games.len() && (#[trigger] games[i]).integer_field("gameId"@) == Some(id);
        assert(is_game(games[i], id));
    }
    if exists|i: int| 0 <= i < games.len() && is_game(#[trigger] games[i], id) {
        let i = choose|i: int| 0 <= i < games.len() && is_game(#[trigger] games[i], id);
        assert(games[i].integer_field("gameId"@) == Some(id));
    }
}

/// Without a list of games nothing is recorded.
pub proof fn law_no_list_no_games(history: JsonView)
    requires
        forall|games: Seq<JsonView>| !lists_games(history, games),
    ensures
        history_wins(history) == Map::<i64, bool>::empty(),
{
    if games_in(history) is Some {
        assert(lists_games(history, games_in(history)->0));
    }
}

/// Two players with one entry each for the same game have that game in common where both
/// won or both lost it, and nothing where they were opponents.
pub proof fn law_opponents_have_nothing_in_common(
    a: JsonView,
    b: JsonView,
    game_a: JsonView,
    game_b: JsonView,
    id: i64,
    won_a: bool,
    won_b: bool,
)
    requires
        lists_games(a, seq![game_a]),
        lists_games(b, seq![game_b]),
        is_game(game_a, id),
        is_game(game_b, id),
        says(game_a, won_a),
        says(game_b, won_b),
    ensures
        common_count(Some(history_wins(a)), Some(history_wins(b))) == if won_a == won_b {
            1nat
        } else {
            0
        },
{
    law_result_is_recorded(a, seq![game_a], 0, id, won_a);
    law_result_is_recorded(b, seq![game_b], 0, id, won_b);
    let common = common_games(history_wins(a), history_wins(b));
    assert forall|g: i64| common.contains(g) implies g == id by {
        law_listed_games_are_recorded(a, seq![game_a], g);
    }
    if won_a == won_b {
        assert(common =~= Set::empty().insert(id));
    } else {
        assert(common =~= Set::empty());
    }
}

/// A game that neither player had counts for both of them together where they have the same
/// result in it, and not where they were opponents.
pub proof fn law_common_count_of_one_more_game(
    a: Map<i64, bool>,
    b: Map<i64, bool>,
    id: i64,
    won_a: bool,
    won_b: bool,
)
    requires
        a.dom().finite(),
        !a.contains_key(id),
        !b.contains_key(id),
    ensures
        common_count(Some(a.insert(id, won_a)), Some(b.insert(id, won_b))) == common_count(
            Some(a),
            Some(b),
        ) + if won_a == won_b {
            1nat
        } else {
            0
        },
        common_count(Some(a.insert(id, won_a)), Some(b)) == common_count(Some(a), Some(b)),
        common_count(Some(Map::empty()), Some(b)) == 0,
        common_count(None, Some(b)) == 0,
        common_count(Some(a), None) == 0,
{
    let before = common_games(a, b);
    let after = common_games(a.insert(id, won_a), b.insert(id, won_b));
    assert(before.subset_of(a.dom()));
    vstd::set_lib::lemma_len_subset(before, a.dom());
    if won_a == won_b {
        assert(after =~= before.insert(id));
    } else {
        assert(after =~= before);
    }
    assert(common_games(a.insert(id, won_a), b) =~= before);
    assert(common_games(Map::empty(), b) =~= Set::empty());
}

/// The histories of some players with one more answer: that of its player is what the answer
/// says, or empty where there was none, and those of the others are as they were.
pub proof fn law_each_player_has_their_own_history(
    answers: Seq<(Seq<char>, Result<JsonView, ErrorView>)>,
    puuid: Seq<char>,
    answer: Result<JsonView, ErrorView>,
    other: Seq<char>,
)
    requires
        other != puuid,
    ensures
        ({
            let h = histories_from(answers.push((puuid, answer)));
            &&& h.contains_key(puuid)
            &&& answer matches Ok(v) ==> h[puuid] == history_wins(v)
            &&& answer is Err ==> h[puuid] == Map::<i64, bool>::empty()
            &&& h.contains_key(other) == histories_from(answers).contains_key(other)
            &&& h.contains_key(other) ==> h[other] == histories_from(answers)[other]
            &&& history_of(h, other) == history_of(histories_from(answers), other)
            &&& history_of(h, puuid) == Some(h[puuid])
        }),
        histories_from(Seq::empty()) == Map::<Seq<char>, Map<i64, bool>>::empty(),
{
    assert(answers.push((puuid, answer)).drop_last() =~= answers);
}

} // verus!
