//! Who plays together, who is in a team, and how it is told.

use crate::app::histories::{common_count, HistoriesView};
use crate::app::premade::{
    are_groups, game_player, game_players, game_teams, group_line, is_group, law_groups_disjoint,
    law_linked_players_share_a_group, law_no_links_no_groups, lemma_group_pair,
    lemma_group_two, lemma_grouped_next,
    lemma_linked_symmetric, linked, names_among, premade_text, select_player, select_players,
    select_side, select_team, team_text, weight, GroupView, TeamPremadeView, TeamView,
};
use crate::json::JsonView;
use crate::text::{decimal, joined, lemma_sorted_texts, text_order};
use vstd::prelude::*;
use vstd::relations::sorted_by;

verus! {

/// The games that two players have in common with the same result: those that stand in both
/// histories as won, or in both as lost.
pub open spec fn same_results(a: Map<i64, bool>, b: Map<i64, bool>) -> Set<i64> {
    Set::new(
        |id: i64|
            a.contains_key(id) && b.contains_key(id) && ((a[id] && b[id]) || (!a[id] && !b[id])),
    )
}

proof fn lemma_same_results(a: Map<i64, bool>, b: Map<i64, bool>)
    ensures
        common_count(Some(a), Some(b)) == same_results(a, b).len(),
{
    assert(crate::app::histories::common_games(a, b) =~= same_results(a, b));
}

/// Two players of a team with at least as many games in common as the threshold asks for,
/// with the same result in each, are in one group.
pub proof fn law_enough_common_games_make_a_group(
    team: TeamView,
    h: HistoriesView,
    threshold: nat,
    groups: Seq<GroupView>,
    sets: Seq<Set<int>>,
    i: int,
    j: int,
)
    requires
        are_groups(team, h, threshold, groups, sets),
        0 <= i < team.len(),
        0 <= j < team.len(),
        i != j,
        h.contains_key(team[i].0),
        h.contains_key(team[j].0),
        same_results(h[team[i].0], h[team[j].0]).len() >= threshold,
    ensures
        exists|k: int|
            0 <= k < sets.len() && #[trigger] sets[k].contains(i) && sets[k].contains(j),
{
    lemma_same_results(h[team[i].0], h[team[j].0]);
    assert(linked(team, h, threshold, i, j));
    law_linked_players_share_a_group(team, h, threshold, groups, sets, i, j);
}

/// A team of two forms a group exactly if they have enough games in common with the same
/// result. The group names both, in ascending order, and counts these games.
pub proof fn law_two_players_are_a_group(
    team: TeamView,
    h: HistoriesView,
    threshold: nat,
    groups: Seq<GroupView>,
    sets: Seq<Set<int>>,
)
    requires
        are_groups(team, h, threshold, groups, sets),
        team.len() == 2,
        h.contains_key(team[0].0),
        h.contains_key(team[1].0),
    ensures
        ({
            let common = same_results(h[team[0].0], h[team[1].0]).len();
            &&& groups.len() > 0 <==> common >= threshold
            &&& groups.len() <= 1
            &&& groups.len() > 0 ==> groups[0].times == common && groups[0].names.to_multiset()
                == seq![team[0].1, team[1].1].to_multiset() && sorted_by(
                groups[0].names,
                text_order(),
            )
        }),
{
    let common = same_results(h[team[0].0], h[team[1].0]).len();
    lemma_same_results(h[team[0].0], h[team[1].0]);
    lemma_linked_symmetric(team, h, threshold, 0, 1);
    assert(linked(team, h, threshold, 0, 1) <==> common >= threshold);
    if common >= threshold {
        law_linked_players_share_a_group(team, h, threshold, groups, sets, 0, 1);
    } else {
        assert forall|i: int, j: int| !linked(team, h, threshold, i, j) by {
            if linked(team, h, threshold, i, j) {
                assert((i == 0 && j == 1) || (i == 1 && j == 0));
            }
        }
        law_no_links_no_groups(team, h, threshold, groups, sets);
    }
    if groups.len() > 0 {
        assert(is_group(team, h, threshold, sets[0]));
        let pair = lemma_group_two(team, h, threshold, sets[0]);
        assert(sets[0].contains(0) && sets[0].contains(1));
        if groups.len() > 1 {
            assert(is_group(team, h, threshold, sets[1]));
            let other = lemma_group_two(team, h, threshold, sets[1]);
            law_groups_disjoint(team, h, threshold, groups, sets, 0, 1);
            assert(sets[1].contains(0));
            assert(false);
        }
        let (i, j) = choose|i: int, j: int|
            sets[0].contains(i) && #[trigger] linked(team, h, threshold, i, j) && weight(
                team,
                h,
                i,
                j,
            ) == groups[0].times;
        assert((i == 0 && j == 1) || (i == 1 && j == 0));
        reveal_with_fuel(names_among, 3);
        let names = names_among(team, sets[0], 2);
        assert(names =~= seq![team[0].1, team[1].1]);
        lemma_sorted_texts(names, names);
    }
}

/// Players without a history have nothing in common with anybody: with a threshold above
/// zero they are in no group of two.
pub proof fn law_no_history_no_link(
    team: TeamView,
    h: HistoriesView,
    threshold: nat,
    i: int,
    j: int,
)
    requires
        threshold > 0,
        0 <= i < team.len(),
        !h.contains_key(team[i].0),
    ensures
        !linked(team, h, threshold, i, j),
        !linked(team, h, threshold, j, i),
{
}

/// An entry of a champion select is a player where it has an identifier that is not empty
/// and does not begin with a zero. The champion is the one that is picked, or the one that
/// is intended where none is picked.
pub proof fn law_who_is_in_a_champion_select(p: JsonView)
    ensures
        select_player(p) is Some <==> (p.field("puuid"@) matches Some(JsonView::Str(id)) && id.len()
            > 0 && id[0] != '0'),
        select_player(p) matches Some(player) ==> {
            &&& p.field("puuid"@) == Some(JsonView::Str(player.0))
            &&& p.field("summonerName"@) matches Some(JsonView::Str(name)) ==> player.1 == name
            &&& p.field("summonerName"@) is None && (p.field("displayName"@)
                matches Some(JsonView::Str(_))) ==> Some(player.1) == p.text_field("displayName"@)
            &&& p.field("summonerName"@) is None && p.field("displayName"@) is None ==> player.1
                == player.0
            &&& p.integer_field("championId"@) is Some && p.integer_field("championId"@)->0 != 0
                ==> p.integer_field("championId"@) == Some(player.2)
            &&& p.integer_field("championId"@) == Some(0i64) && p.integer_field(
                "championPickIntent"@,
            ) is Some ==> p.integer_field("championPickIntent"@) == Some(player.2)
            &&& p.integer_field("championId"@) is None && p.integer_field("championPickIntent"@)
                is None ==> player.2 == 0
        },
{
}

/// The players of a champion select are those of its entries that are players, in their
/// order.
pub proof fn law_select_players_keep_their_order(a: Seq<JsonView>, p: JsonView, b: Seq<JsonView>)
    ensures
        select_player(p) matches Some(x) ==> select_players(a.push(p) + b) == select_players(a).push(
            x,
        ) + select_players(b),
        select_player(p) is None ==> select_players(a.push(p) + b) == select_players(a)
            + select_players(b),
        select_players(Seq::empty()).len() == 0,
{
    lemma_select_parts(a.push(p), b);
    assert(a.push(p).drop_last() =~= a);
}

proof fn lemma_select_parts(a: Seq<JsonView>, b: Seq<JsonView>)
    ensures
        select_players(a + b) == select_players(a) + select_players(b),
    decreases b.len(),
{
    if b.len() == 0 {
        assert(a + b =~= a);
        assert(select_players(a) + select_players(b) =~= select_players(a));
    } else {
        assert((a + b).drop_last() =~= a + b.drop_last());
        lemma_select_parts(a, b.drop_last());
        assert(select_players(a + b) =~= select_players(a) + select_players(b));
    }
}

/// A team of a champion select is the list under its name, and its side stands under `team`
/// in the first entry of that list.
pub proof fn law_teams_stand_under_their_names(
    session: JsonView,
    key: Seq<char>,
    entries: Seq<JsonView>,
    side: u32,
)
    requires
        session.field(key) == Some(JsonView::Array(entries)),
    ensures
        select_team(session, key) == select_players(entries),
        entries.len() > 0 && entries[0].field("team"@) == Some(
            JsonView::Number(crate::json::Number::Unsigned(side as u64)),
        ) ==> select_side(session, key) == Some(side),
        entries.len() == 0 ==> select_side(session, key) is None,
{
}

/// An entry of a running game is a player under the same condition; they go by their name,
/// with the name of their champion in brackets where it is known.
pub proof fn law_who_is_in_a_game(p: JsonView, names: Map<i64, String>)
    ensures
        game_player(p, names) is Some <==> (p.field("puuid"@) matches Some(JsonView::Str(id))
            && id.len() > 0 && id[0] != '0'),
        game_player(p, names) matches Some(player) ==> {
            &&& p.field("puuid"@) == Some(JsonView::Str(player.0))
            &&& p.field("summonerName"@) matches Some(JsonView::Str(name)) ==> (
            p.integer_field("championId"@) is None ==> player.1 == name) && (
            p.integer_field("championId"@) matches Some(id) ==> (id != 0 && names.contains_key(id)
                ==> player.1 == name + "("@ + names[id]@ + ")"@) && ((id == 0
                || !names.contains_key(id)) ==> player.1 == name))
            &&& p.field("summonerName"@) is None && p.field("gameName"@) is None && p.integer_field(
                "championId"@,
            ) is None ==> player.1 == player.0
            &&& p.field("summonerName"@) is None && p.integer_field("championId"@) is None && (
            p.field("gameName"@) matches Some(JsonView::Str(_))) ==> Some(player.1) == p.text_field(
                "gameName"@,
            )
        },
{
}

proof fn lemma_game_parts(a: Seq<JsonView>, b: Seq<JsonView>, names: Map<i64, String>)
    ensures
        game_players(a + b, names) == game_players(a, names) + game_players(b, names),
    decreases b.len(),
{
    if b.len() == 0 {
        assert(a + b =~= a);
        assert(game_players(a, names) + game_players(b, names) =~= game_players(a, names));
    } else {
        assert((a + b).drop_last() =~= a + b.drop_last());
        lemma_game_parts(a, b.drop_last(), names);
        assert(game_players(a + b, names) =~= game_players(a, names) + game_players(b, names));
    }
}

/// The players of a running game are those of its entries that are players, in their order.
pub proof fn law_game_players_keep_their_order(
    a: Seq<JsonView>,
    p: JsonView,
    b: Seq<JsonView>,
    names: Map<i64, String>,
)
    ensures
        game_player(p, names) matches Some(x) ==> game_players(a.push(p) + b, names)
            == game_players(a, names).push(x) + game_players(b, names),
        game_player(p, names) is None ==> game_players(a.push(p) + b, names) == game_players(
            a,
            names,
        ) + game_players(b, names),
        game_players(Seq::empty(), names).len() == 0,
{
    lemma_game_parts(a.push(p), b, names);
    assert(a.push(p).drop_last() =~= a);
}

/// The player's own team comes first: a player of the session's first team is on side 100
/// against the second team on side 200, and anybody else is on side 200 with the second team
/// against the first.
pub proof fn law_own_team_comes_first(
    session: JsonView,
    me: Seq<char>,
    names: Map<i64, String>,
    one: Seq<JsonView>,
    two: Seq<JsonView>,
)
    requires
        ({
            let data = match session.field("gameData"@) {
                Some(v) => v,
                None => session,
            };
            data.field("teamOne"@) == Some(JsonView::Array(one)) && data.field("teamTwo"@) == Some(
                JsonView::Array(two),
            )
        }),
    ensures
        ({
            let (mine, theirs, my_side, their_side) = game_teams(session, me, names);
            let first = game_players(one, names);
            let second = game_players(two, names);
            let in_first = exists|i: int| 0 <= i < first.len() && #[trigger] first[i].0 == me;
            &&& in_first ==> mine == first && theirs == second && my_side == 100 && their_side
                == 200
            &&& !in_first ==> mine == second && theirs == first && my_side == 200 && their_side
                == 100
        }),
{
}

/// The message on premade groups begins with its heading and has both teams, the player's
/// own first, each with its side; a team without groups is said to have none, and a group is
/// a line with its size, its games and its players.
pub proof fn law_message_tells_both_teams(
    mine: TeamPremadeView,
    theirs: TeamPremadeView,
    my_side: Option<u32>,
    their_side: Option<u32>,
)
    ensures
        premade_text(mine, theirs, my_side, their_side) == "[对局组黑分析]\n"@ + team_text(
            mine,
            my_side,
        ) + "\n"@ + team_text(theirs, their_side),
        mine.groups.len() == 0 && my_side == Some(100u32) ==> team_text(mine, my_side)
            == mine.team_name + " "@ + "🔵蓝队"@ + "：未检测到预组队"@,
        mine.groups.len() == 0 && my_side == Some(200u32) ==> team_text(mine, my_side)
            == mine.team_name + " "@ + "🔴红队"@ + "：未检测到预组队"@,
        mine.groups.len() == 0 && my_side is None ==> team_text(mine, my_side) == mine.team_name
            + " "@ + ""@ + "：未检测到预组队"@,
        forall|g: GroupView| #[trigger]
            group_line(g) == "  "@ + decimal(g.names.len()) + "黑（"@ + decimal(g.times)
                + "局）："@ + joined(g.names, " / "@),
{
}

/// A team with one group is told under its name and side, in the group's line.
pub proof fn law_group_is_told_under_its_team(t: TeamPremadeView, g: GroupView, side: Option<u32>)
    requires
        t.groups == seq![g],
    ensures
        side == Some(100u32) ==> team_text(t, side) == t.team_name + " "@ + "🔵蓝队"@ + "：\n"@
            + group_line(g),
        side == Some(200u32) ==> team_text(t, side) == t.team_name + " "@ + "🔴红队"@ + "：\n"@
            + group_line(g),
{
    assert(Seq::new(t.groups.len(), |i: int| group_line(t.groups[i])) =~= seq![group_line(g)]);
    reveal_with_fuel(joined, 2);
    assert(joined(seq![group_line(g)], "\n"@) =~= group_line(g));
}

/// A group counts the fewest games that two of its players who are linked have in common: no
/// such pair has fewer, and one has exactly so many.
pub proof fn law_group_counts_its_weakest_link(
    team: TeamView,
    h: HistoriesView,
    threshold: nat,
    groups: Seq<GroupView>,
    sets: Seq<Set<int>>,
    k: int,
    i: int,
    j: int,
)
    requires
        are_groups(team, h, threshold, groups, sets),
        0 <= k < groups.len(),
    ensures
        sets[k].contains(i) && sets[k].contains(j) && i != j && h.contains_key(team[i].0)
            && h.contains_key(team[j].0) && same_results(h[team[i].0], h[team[j].0]).len()
            >= threshold ==> groups[k].times <= same_results(h[team[i].0], h[team[j].0]).len(),
        threshold > 0 ==> exists|a: int, b: int| #[trigger]
            sets[k].contains(a) && #[trigger] sets[k].contains(b) && a != b && h.contains_key(
                team[a].0,
            ) && h.contains_key(team[b].0) && same_results(h[team[a].0], h[team[b].0]).len()
                == groups[k].times,
{
    assert(is_group(team, h, threshold, sets[k]));
    if sets[k].contains(i) && sets[k].contains(j) && i != j && h.contains_key(team[i].0)
        && h.contains_key(team[j].0) && same_results(h[team[i].0], h[team[j].0]).len()
        >= threshold {
        lemma_same_results(h[team[i].0], h[team[j].0]);
        lemma_members_in_team(team, h, threshold, sets[k], i);
        lemma_members_in_team(team, h, threshold, sets[k], j);
        assert(linked(team, h, threshold, i, j));
    }
    if threshold > 0 {
        let (a, b) = choose|a: int, b: int|
            sets[k].contains(a) && #[trigger] linked(team, h, threshold, a, b) && weight(
                team,
                h,
                a,
                b,
            ) == groups[k].times;
        lemma_linked_together(team, h, threshold, groups, sets, k, a, b);
        lemma_same_results(h[team[a].0], h[team[b].0]);
        assert(sets[k].contains(a) && sets[k].contains(b));
    }
}

proof fn lemma_members_in_team(
    team: TeamView,
    h: HistoriesView,
    threshold: nat,
    members: Set<int>,
    i: int,
)
    requires
        is_group(team, h, threshold, members),
        members.contains(i),
    ensures
        0 <= i < team.len(),
{
    reveal(is_group);
}

proof fn lemma_linked_together(
    team: TeamView,
    h: HistoriesView,
    threshold: nat,
    groups: Seq<GroupView>,
    sets: Seq<Set<int>>,
    k: int,
    i: int,
    j: int,
)
    requires
        are_groups(team, h, threshold, groups, sets),
        0 <= k < sets.len(),
        sets[k].contains(i),
        linked(team, h, threshold, i, j),
    ensures
        sets[k].contains(j),
{
    law_linked_players_share_a_group(team, h, threshold, groups, sets, i, j);
    let l = choose|l: int|
        0 <= l < sets.len() && #[trigger] sets[l].contains(i) && sets[l].contains(j);
    if l < k {
        law_groups_disjoint(team, h, threshold, groups, sets, l, k);
    } else if k < l {
        law_groups_disjoint(team, h, threshold, groups, sets, k, l);
    }
}

/// Playing together goes on through others: with a player of a group, everybody who has
/// enough games in common with them is in it.
pub proof fn law_groups_are_closed(
    team: TeamView,
    h: HistoriesView,
    threshold: nat,
    groups: Seq<GroupView>,
    sets: Seq<Set<int>>,
    k: int,
    i: int,
    j: int,
)
    requires
        are_groups(team, h, threshold, groups, sets),
        0 <= k < sets.len(),
        sets[k].contains(i),
        0 <= j < team.len(),
        i != j,
        h.contains_key(team[i].0),
        h.contains_key(team[j].0),
        same_results(h[team[i].0], h[team[j].0]).len() >= threshold,
    ensures
        sets[k].contains(j),
{
    assert(is_group(team, h, threshold, sets[k]));
    lemma_members_in_team(team, h, threshold, sets[k], i);
    lemma_same_results(h[team[i].0], h[team[j].0]);
    lemma_linked_together(team, h, threshold, groups, sets, k, i, j);
}

/// A player who has too few games in common with everybody else is in no group.
pub proof fn law_lone_players_are_in_no_group(
    team: TeamView,
    h: HistoriesView,
    threshold: nat,
    groups: Seq<GroupView>,
    sets: Seq<Set<int>>,
    k: int,
    i: int,
)
    requires
        are_groups(team, h, threshold, groups, sets),
        0 <= k < sets.len(),
        0 <= i < team.len(),
        threshold > 0,
        !h.contains_key(team[i].0) || forall|j: int|
            0 <= j < team.len() && j != i && h.contains_key(#[trigger] team[j].0) ==> same_results(
                h[team[i].0],
                h[team[j].0],
            ).len() < threshold,
    ensures
        !sets[k].contains(i),
{
    if sets[k].contains(i) {
        assert(is_group(team, h, threshold, sets[k]));
        let pair = lemma_group_two(team, h, threshold, sets[k]);
        let other = if pair.0 != i {
            pair.0
        } else {
            pair.1
        };
        lemma_group_pair(team, h, threshold, sets[k], i, other);
        lemma_grouped_next(team, h, threshold, i, other);
        let b = choose|b: int| linked(team, h, threshold, i, b);
        lemma_same_results(h[team[i].0], h[team[b].0]);
        assert(h.contains_key(team[b].0));
        assert(false);
    }
}

proof fn lemma_names_of(team: TeamView, members: Set<int>, n: int, name: Seq<char>)
    requires
        0 <= n <= team.len(),
    ensures
        names_among(team, members, n).contains(name) <==> exists|i: int|
            0 <= i < n && members.contains(i) && #[trigger] team[i].1 == name,
    decreases n,
{
    if n > 0 {
        lemma_names_of(team, members, n - 1, name);
        let before = names_among(team, members, n - 1);
        let all = names_among(team, members, n);
        if before.contains(name) {
            assert(all[before.index_of(name)] == name);
        }
        if members.contains(n - 1) && team[n - 1].1 == name {
            assert(all[all.len() - 1] == name);
        }
        if all.contains(name) {
            let x = all.index_of(name);
            if x < before.len() {
                assert(before[x] == name);
            }
        }
    }
}

/// A group names its players and nobody else, in ascending order; of two groups the larger
/// one comes first.
pub proof fn law_group_names_its_players(
    team: TeamView,
    h: HistoriesView,
    threshold: nat,
    groups: Seq<GroupView>,
    sets: Seq<Set<int>>,
    k: int,
    l: int,
    name: Seq<char>,
)
    requires
        are_groups(team, h, threshold, groups, sets),
        0 <= k < groups.len(),
    ensures
        groups[k].names.contains(name) <==> exists|i: int|
            0 <= i < team.len() && sets[k].contains(i) && #[trigger] team[i].1 == name,
        sorted_by(groups[k].names, text_order()),
        k < l < groups.len() ==> groups[k].names.len() >= groups[l].names.len(),
{
    broadcast use vstd::seq_lib::group_to_multiset_ensures;

    assert(is_group(team, h, threshold, sets[k]));
    let names = names_among(team, sets[k], team.len() as int);
    lemma_names_of(team, sets[k], team.len() as int, name);
    lemma_sorted_texts(names, names);
    assert(groups[k].names.contains(name) <==> groups[k].names.to_multiset().count(name) > 0);
    assert(names.contains(name) <==> names.to_multiset().count(name) > 0);
}

} // verus!
