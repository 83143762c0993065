//! What the figures of a rating are, and what a grade stands for.

use crate::app::prophet::{
    basis_of, game_in, games_stats, grade_of, identity_of, is_identity_of, number_in_game,
    participant_of, summaries_in, summary_in, team_in, RatingBasisView, TeamStats,
};
use crate::json::JsonView;
use vstd::prelude::*;

verus! {

/// The limits of the grades: each stands for the ratings from its own limit up to the next.
pub proof fn law_grades_have_limits(score: int)
    ensures
        score >= 35 ==> grade_of(score) == "通天代"@,
        31 <= score < 35 ==> grade_of(score) == "小代"@,
        27 <= score < 31 ==> grade_of(score) == "上等马"@,
        23 <= score < 27 ==> grade_of(score) == "中等马"@,
        19 <= score < 23 ==> grade_of(score) == "下等马"@,
        15 <= score < 19 ==> grade_of(score) == "纯牛马"@,
        score < 15 ==> grade_of(score) == "没有马"@,
{
}

proof fn lemma_first_identity(identities: Seq<JsonView>, puuid: Seq<char>, i: int)
    requires
        0 <= i < identities.len(),
        is_identity_of(identities[i], puuid),
        forall|k: int| 0 <= k < i ==> !is_identity_of(#[trigger] identities[k], puuid),
    ensures
        identity_of(identities, puuid) == Some(identities[i]),
    decreases i,
{
    if i > 0 {
        assert(!is_identity_of(identities[0], puuid));
        let rest = identities.drop_first();
        assert(rest[i - 1] == identities[i]);
        assert forall|k: int| 0 <= k < i - 1 implies !is_identity_of(#[trigger] rest[k], puuid) by {
            assert(rest[k] == identities[k + 1]);
        }
        lemma_first_identity(rest, puuid, i - 1);
    }
}

proof fn lemma_first_participant(participants: Seq<JsonView>, id: i64, i: int)
    requires
        0 <= i < participants.len(),
        participants[i].integer_field("participantId"@) == Some(id),
        forall|k: int|
            0 <= k < i ==> (#[trigger] participants[k]).integer_field("participantId"@) != Some(id),
    ensures
        participant_of(participants, id) == Some(participants[i]),
    decreases i,
{
    if i > 0 {
        assert(participants[0].integer_field("participantId"@) != Some(id));
        let rest = participants.drop_first();
        assert(rest[i - 1] == participants[i]);
        assert forall|k: int| 0 <= k < i - 1 implies (#[trigger] rest[k]).integer_field(
            "participantId"@,
        ) != Some(id) by {
            assert(rest[k] == participants[k + 1]);
        }
        lemma_first_participant(rest, id, i - 1);
    }
}

proof fn lemma_participant_found(participants: Seq<JsonView>, id: i64) -> (i: int)
    requires
        participant_of(participants, id) is Some,
    ensures
        0 <= i < participants.len(),
        participant_of(participants, id) == Some(participants[i]),
    decreases participants.len(),
{
    if participants[0].integer_field("participantId"@) == Some(id) {
        0
    } else {
        let k = lemma_participant_found(participants.drop_first(), id);
        assert(participants.drop_first()[k] == participants[k + 1]);
        k + 1
    }
}

/// The identity names the player.
pub open spec fn names_player(identity: JsonView, puuid: Seq<char>) -> bool {
    identity.field("player"@) matches Some(player) && player.field("puuid"@) == Some(
        JsonView::Str(puuid),
    )
}

/// The first of the entries with a number under `participantId`.
pub open spec fn first_with_number(participants: Seq<JsonView>, number: i64, me: int) -> bool {
    &&& 0 <= me < participants.len()
    &&& participants[me].integer_field("participantId"@) == Some(number)
    &&& forall|l: int|
        0 <= l < me ==> (#[trigger] participants[l]).integer_field("participantId"@) != Some(number)
}

/// The place of a player in a game: the first identity with the player's identifier, at `k`,
/// gives a number, and the first participant with that number, at `me`, is the player.
pub open spec fn plays_as(game: JsonView, puuid: Seq<char>, k: int, me: int) -> bool {
    &&& game.items_field("participants"@) matches Some(participants)
    &&& game.items_field("participantIdentities"@) matches Some(identities)
    &&& 0 <= k < identities.len()
    &&& names_player(identities[k], puuid)
    &&& forall|l: int| 0 <= l < k ==> !names_player(#[trigger] identities[l], puuid)
    &&& identities[k].integer_field("participantId"@) matches Some(number)
    &&& first_with_number(participants, number, me)
}

proof fn lemma_plays_as(game: JsonView, puuid: Seq<char>, k: int, me: int)
    requires
        plays_as(game, puuid, k, me),
    ensures
        number_in_game(game, puuid) is Some,
        participant_of(
            game.items_field("participants"@)->0,
            number_in_game(game, puuid)->0,
        ) == Some(game.items_field("participants"@)->0[me]),
{
    let participants = game.items_field("participants"@)->0;
    let identities = game.items_field("participantIdentities"@)->0;
    assert forall|l: int| 0 <= l < k implies !is_identity_of(#[trigger] identities[l], puuid) by {
        assert(!names_player(identities[l], puuid));
    }
    lemma_first_identity(identities, puuid, k);
    lemma_first_participant(participants, identities[k].integer_field("participantId"@)->0, me);
}

proof fn lemma_team_complete(participants: Seq<JsonView>, team: JsonView)
    ensures
        team_in(participants, team) is Some <==> forall|i: int|
            0 <= i < participants.len() && (#[trigger] participants[i]).field("teamId"@) == Some(
                team,
            ) ==> participants[i].field("stats"@) is Some,
    decreases participants.len(),
{
    if participants.len() > 0 {
        let rest = participants.drop_last();
        lemma_team_complete(rest, team);
        assert(forall|i: int|
            #![trigger rest[i]]
            #![trigger participants[i]]
            0 <= i < rest.len() ==> rest[i] == participants[i]);
        assert(participants[participants.len() - 1] == participants.last());
        if team_in(rest, team) is None {
            let i = choose|i: int|
                0 <= i < rest.len() && (#[trigger] rest[i]).field("teamId"@) == Some(team)
                    && !(rest[i].field("stats"@) is Some);
            assert(participants[i].field("stats"@) is None);
        }
    }
}

/// A game counts for a player who is found in it with figures and a team, exactly if every
/// member of that team has figures.
pub proof fn law_complete_games_count(
    game: JsonView,
    puuid: Seq<char>,
    k: int,
    me: int,
    team: JsonView,
)
    requires
        plays_as(game, puuid, k, me),
        game.items_field("participants"@)->0[me].field("stats"@) is Some,
        game.items_field("participants"@)->0[me].field("teamId"@) == Some(team),
    ensures
        game_in(game, puuid) is Some <==> forall|i: int|
            0 <= i < game.items_field("participants"@)->0.len() && (#[trigger] game.items_field(
                "participants"@,
            )->0[i]).field("teamId"@) == Some(team) ==> game.items_field(
                "participants"@,
            )->0[i].field("stats"@) is Some,
{
    lemma_plays_as(game, puuid, k, me);
    lemma_team_complete(game.items_field("participants"@)->0, team);
}

/// The player's own figures in a game are the numbers of their entry, each under its name;
/// the game counts as won only where the entry says so.
pub proof fn law_own_figures_are_the_players(
    game: JsonView,
    puuid: Seq<char>,
    k: int,
    me: int,
    stats: JsonView,
)
    requires
        plays_as(game, puuid, k, me),
        game.items_field("participants"@)->0[me].field("stats"@) == Some(stats),
    ensures
        game_in(game, puuid) matches Some(g) ==> {
            &&& g.own.kills == stats.number_field("kills"@)
            &&& g.own.deaths == stats.number_field("deaths"@)
            &&& g.own.assists == stats.number_field("assists"@)
            &&& g.own.damage == stats.number_field("totalDamageDealtToChampions"@)
            &&& g.own.damage_taken == stats.number_field("totalDamageTaken"@)
            &&& g.own.gold == stats.number_field("goldEarned"@)
            &&& g.own.minions == stats.number_field("totalMinionsKilled"@)
            &&& g.own.neutral_minions == stats.number_field("neutralMinionsKilled"@)
            &&& g.own.win <==> stats.field("win"@) == Some(JsonView::Bool(true))
            &&& g.duration == game.number_field("gameDuration"@)
        },
{
    lemma_plays_as(game, puuid, k, me);
}

/// A participant of the team: their entry has the team's value under `teamId`, and figures.
pub open spec fn has_figures(participant: JsonView, team: JsonView, t: TeamStats) -> bool {
    &&& participant.field("teamId"@) == Some(team)
    &&& participant.field("stats"@) matches Some(stats)
    &&& t.damage == stats.number_field("totalDamageDealtToChampions"@)
    &&& t.damage_taken == stats.number_field("totalDamageTaken"@)
    &&& t.gold == stats.number_field("goldEarned"@)
    &&& t.kills == stats.number_field("kills"@)
}

proof fn lemma_team_members(participants: Seq<JsonView>, team: JsonView)
    requires
        team_in(participants, team) is Some,
    ensures
        ({
            let members = team_in(participants, team)->0;
            &&& forall|i: int|
                0 <= i < participants.len() && (#[trigger] participants[i]).field("teamId"@) == Some(
                    team,
                ) ==> exists|j: int|
                    0 <= j < members.len() && has_figures(participants[i], team, #[trigger] members[j])
            &&& forall|j: int|
                0 <= j < members.len() ==> exists|i: int|
                    0 <= i < participants.len() && has_figures(
                        #[trigger] participants[i],
                        team,
                        #[trigger] members[j],
                    )
        }),
    decreases participants.len(),
{
    if participants.len() > 0 {
        let rest = participants.drop_last();
        let last = participants.last();
        lemma_team_members(rest, team);
        let before = team_in(rest, team)->0;
        let members = team_in(participants, team)->0;
        assert forall|i: int|
            0 <= i < participants.len() && (#[trigger] participants[i]).field("teamId"@) == Some(
                team,
            ) implies exists|j: int|
            0 <= j < members.len() && has_figures(participants[i], team, #[trigger] members[j]) by {
            if i < rest.len() {
                assert(rest[i] == participants[i]);
                let j = choose|j: int|
                    0 <= j < before.len() && has_figures(rest[i], team, #[trigger] before[j]);
                assert(members[j] == before[j]);
            } else {
                assert(has_figures(participants[i], team, members[members.len() - 1]));
            }
        }
        assert forall|j: int| 0 <= j < members.len() implies exists|i: int|
            0 <= i < participants.len() && has_figures(
                #[trigger] participants[i],
                team,
                #[trigger] members[j],
            ) by {
            if j < before.len() {
                assert(members[j] == before[j]);
                let i = choose|i: int|
                    0 <= i < rest.len() && has_figures(#[trigger] rest[i], team, before[j]);
                assert(participants[i] == rest[i]);
            } else {
                assert(has_figures(participants[participants.len() - 1], team, members[j]));
            }
        }
    }
}

/// The figures of a team are those of its members: every participant of the player's team
/// stands in it with the numbers of their own entry, and nobody else does.
pub proof fn law_team_figures_are_the_members(
    game: JsonView,
    puuid: Seq<char>,
    k: int,
    me: int,
    team: JsonView,
    i: int,
    j: int,
)
    requires
        plays_as(game, puuid, k, me),
        game.items_field("participants"@)->0[me].field("teamId"@) == Some(team),
        game_in(game, puuid) is Some,
    ensures
        ({
            let participants = game.items_field("participants"@)->0;
            let members = game_in(game, puuid)->0.team;
            &&& 0 <= i < participants.len() && participants[i].field("teamId"@) == Some(team)
                ==> exists|l: int|
                0 <= l < members.len() && has_figures(participants[i], team, #[trigger] members[l])
            &&& 0 <= j < members.len() ==> exists|l: int|
                0 <= l < participants.len() && has_figures(
                    #[trigger] participants[l],
                    team,
                    members[j],
                )
        }),
{
    lemma_plays_as(game, puuid, k, me);
    lemma_team_members(game.items_field("participants"@)->0, team);
    let participants = game.items_field("participants"@)->0;
    let members = game_in(game, puuid)->0.team;
    if 0 <= j < members.len() {
        assert(exists|l: int|
            0 <= l < participants.len() && has_figures(
                #[trigger] participants[l],
                team,
                members[j],
            ));
    }
}

/// The player is a member of their own team: it holds an entry that agrees with their own
/// figures, so that nobody's share of the best of the team is more than all of it.
pub proof fn law_player_is_in_their_team(game: JsonView, puuid: Seq<char>)
    requires
        game_in(game, puuid) is Some,
    ensures
        ({
            let g = game_in(game, puuid)->0;
            exists|j: int|
                0 <= j < g.team.len() && (#[trigger] g.team[j]).damage == g.own.damage
                    && g.team[j].damage_taken == g.own.damage_taken && g.team[j].gold == g.own.gold
                    && g.team[j].kills == g.own.kills
        }),
{
    let participants = game.items_field("participants"@)->0;
    let id = number_in_game(game, puuid)->0;
    let i = lemma_participant_found(participants, id);
    let team = participants[i].field("teamId"@)->0;
    let g = game_in(game, puuid)->0;
    lemma_team_members(participants, team);
    let j = choose|j: int|
        0 <= j < g.team.len() && has_figures(participants[i], team, #[trigger] g.team[j]);
    assert(g.team[j].damage == g.own.damage);
}

/// The team's figures stand in the order of the participants: those of two lists of
/// participants, one behind the other, are those of the first and then those of the second.
pub proof fn law_team_figures_keep_their_order(
    first: Seq<JsonView>,
    second: Seq<JsonView>,
    team: JsonView,
)
    requires
        team_in(first, team) is Some,
        team_in(second, team) is Some,
    ensures
        team_in(first + second, team) == Some(team_in(first, team)->0 + team_in(second, team)->0),
        second.len() == 1 && second[0].field("teamId"@) == Some(team) ==> team_in(
            second,
            team,
        )->0.len() == 1,
        second.len() == 1 && second[0].field("teamId"@) != Some(team) ==> team_in(
            second,
            team,
        )->0.len() == 0,
    decreases second.len(),
{
    reveal_with_fuel(team_in, 2);
    if second.len() == 0 {
        assert(first + second =~= first);
        assert(team_in(first, team)->0 + team_in(second, team)->0 =~= team_in(first, team)->0);
    } else {
        assert((first + second).drop_last() =~= first + second.drop_last());
        assert((first + second).last() == second.last());
        law_team_figures_keep_their_order(first, second.drop_last(), team);
        assert(team_in(first + second, team)->0 =~= team_in(first, team)->0 + team_in(
            second,
            team,
        )->0);
    }
}

proof fn lemma_games_in_order(games: Seq<JsonView>, puuid: Seq<char>)
    ensures
        games_stats(games, puuid) is Some <==> forall|i: int|
            0 <= i < games.len() ==> game_in(#[trigger] games[i], puuid) is Some,
        games_stats(games, puuid) matches Some(s) ==> s.len() == games.len() && forall|i: int|
            0 <= i < games.len() ==> game_in(#[trigger] games[i], puuid) == Some(s[i]),
    decreases games.len(),
{
    if games.len() > 0 {
        let rest = games.drop_last();
        lemma_games_in_order(rest, puuid);
        assert(forall|i: int|
            #![trigger rest[i]]
            #![trigger games[i]]
            0 <= i < rest.len() ==> rest[i] == games[i]);
        assert(games[games.len() - 1] == games.last());
        if games_stats(games, puuid) is None && games_stats(rest, puuid) is None {
            let i = choose|i: int|
                0 <= i < rest.len() && !(game_in(#[trigger] rest[i], puuid) is Some);
            assert(game_in(games[i], puuid) is None);
        }
    }
}

proof fn lemma_summaries_in_order(games: Seq<JsonView>)
    ensures
        summaries_in(games) is Some <==> forall|i: int|
            0 <= i < games.len() ==> summary_in(#[trigger] games[i]) is Some,
        summaries_in(games) matches Some(s) ==> s.len() == games.len() && forall|i: int|
            0 <= i < games.len() ==> summary_in(#[trigger] games[i]) == Some(s[i]),
    decreases games.len(),
{
    if games.len() > 0 {
        let rest = games.drop_last();
        lemma_summaries_in_order(rest);
        assert(forall|i: int|
            #![trigger rest[i]]
            #![trigger games[i]]
            0 <= i < rest.len() ==> rest[i] == games[i]);
        assert(games[games.len() - 1] == games.last());
        if summaries_in(games) is None && summaries_in(rest) is None {
            let i = choose|i: int| 0 <= i < rest.len() && !(summary_in(#[trigger] rest[i]) is Some);
            assert(summary_in(games[i]) is None);
        }
    }
}

/// A rating by full games has the figures of each game at its place; it is made where the
/// first game names its participants and every game gives the player's figures.
pub proof fn law_full_games_are_preferred(games: Seq<JsonView>, puuid: Seq<char>, i: int)
    requires
        0 <= i < games.len(),
    ensures
        basis_of(games, puuid) matches Some(RatingBasisView::Detailed(s)) ==> s.len() == games.len()
            && game_in(games[i], puuid) == Some(s[i]),
        (basis_of(games, puuid) matches Some(RatingBasisView::Detailed(_))) <==> (games[0].field(
            "participantIdentities"@,
        ) is Some && forall|k: int|
            0 <= k < games.len() ==> game_in(#[trigger] games[k], puuid) is Some),
        basis_of(Seq::empty(), puuid) is None,
{
    lemma_games_in_order(games, puuid);
}

/// A rating by summaries has, at the place of each game, the figures of its first
/// participant.
pub proof fn law_summaries_are_the_first_participants(
    games: Seq<JsonView>,
    puuid: Seq<char>,
    i: int,
    stats: JsonView,
)
    requires
        0 <= i < games.len(),
        games[i].items_field("participants"@) matches Some(p) && p.len() > 0 && p[0].field(
            "stats"@,
        ) == Some(stats),
    ensures
        basis_of(games, puuid) matches Some(RatingBasisView::Summary(s)) ==> {
            &&& s.len() == games.len()
            &&& s[i].kills == stats.number_field("kills"@)
            &&& s[i].deaths == stats.number_field("deaths"@)
            &&& s[i].assists == stats.number_field("assists"@)
            &&& s[i].win <==> stats.field("win"@) == Some(JsonView::Bool(true))
        },
{
    lemma_summaries_in_order(games);
}

/// There is a rating where no rating by full games can be made, exactly if there are games
/// and each of them gives the figures of its first participant.
pub proof fn law_summaries_need_every_game(games: Seq<JsonView>, puuid: Seq<char>)
    requires
        games.len() > 0,
        !(basis_of(games, puuid) matches Some(RatingBasisView::Detailed(_))),
    ensures
        basis_of(games, puuid) is Some <==> forall|k: int|
            0 <= k < games.len() ==> ((#[trigger] games[k]).items_field("participants"@)
                matches Some(p) && p.len() > 0 && p[0].field("stats"@) is Some),
{
    lemma_summaries_in_order(games);
    if basis_of(games, puuid) is None {
        let k = choose|k: int| 0 <= k < games.len() && !(summary_in(#[trigger] games[k]) is Some);
        assert(!(games[k].items_field("participants"@) matches Some(p) && p.len() > 0 && p[0].field(
            "stats"@,
        ) is Some));
    }
}

} // verus!
