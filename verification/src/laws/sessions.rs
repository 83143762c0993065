//! What is read from a session of champion select.

use crate::json::{first_text, whole_view, JsonView};
use crate::lcu::api::{ErrorView, RequestView};
use crate::lcu::api::champ_select::{
    act_after_session, actions_in, bench_in, champion_names, champions_in, first_in_cell,
    first_own_action, integers_in, is_own_action, local_action, local_player, objects_in,
    rounds_actions,
};
use crate::text::decimal_int;
use vstd::prelude::*;

verus! {

proof fn lemma_integers_listed(items: Seq<JsonView>, id: i64)
    ensures
        integers_in(items).contains(id) <==> exists|i: int|
            0 <= i < items.len() && (#[trigger] items[i]).integer() == Some(id),
    decreases items.len(),
{
    if items.len() > 0 {
        let rest = items.drop_last();
        let all = integers_in(items);
        let before = integers_in(rest);
        lemma_integers_listed(rest, id);
        assert(forall|i: int|
            #![trigger rest[i]]
            #![trigger items[i]]
            0 <= i < rest.len() ==> rest[i] == items[i]);
        assert(items[items.len() - 1] == items.last());
        if before.contains(id) {
            assert(all[before.index_of(id)] == id);
            let i = choose|i: int| 0 <= i < rest.len() && (#[trigger] rest[i]).integer() == Some(id);
            assert(items[i].integer() == Some(id));
        }
        if items.last().integer() == Some(id) {
            assert(all[all.len() - 1] == id);
        }
        if all.contains(id) && items.last().integer() != Some(id) {
            assert(before[all.index_of(id)] == id);
        }
    }
}

proof fn lemma_champions_listed(items: Seq<JsonView>, id: i64)
    ensures
        champions_in(items).contains(id) <==> exists|i: int|
            0 <= i < items.len() && (#[trigger] items[i]).integer_field("championId"@) == Some(id),
    decreases items.len(),
{
    if items.len() > 0 {
        let rest = items.drop_last();
        let all = champions_in(items);
        let before = champions_in(rest);
        lemma_champions_listed(rest, id);
        assert(forall|i: int|
            #![trigger rest[i]]
            #![trigger items[i]]
            0 <= i < rest.len() ==> rest[i] == items[i]);
        assert(items[items.len() - 1] == items.last());
        if before.contains(id) {
            assert(all[before.index_of(id)] == id);
            let i = choose|i: int|
                0 <= i < rest.len() && (#[trigger] rest[i]).integer_field("championId"@) == Some(id);
            assert(items[i].integer_field("championId"@) == Some(id));
        }
        if items.last().integer_field("championId"@) == Some(id) {
            assert(all[all.len() - 1] == id);
        }
        if all.contains(id) && items.last().integer_field("championId"@) != Some(id) {
            assert(before[all.index_of(id)] == id);
        }
    }
}

proof fn lemma_integers_in_order(items: Seq<JsonView>, ids: Seq<i64>)
    requires
        items.len() == ids.len(),
        forall|i: int| 0 <= i < items.len() ==> (#[trigger] items[i]).integer() == Some(ids[i]),
    ensures
        integers_in(items) == ids,
    decreases items.len(),
{
    if items.len() > 0 {
        let rest = items.drop_last();
        assert forall|i: int| 0 <= i < rest.len() implies (#[trigger] rest[i]).integer() == Some(
            ids.drop_last()[i],
        ) by {
            assert(rest[i] == items[i]);
        }
        lemma_integers_in_order(rest, ids.drop_last());
        assert(items[items.len() - 1].integer() == Some(ids[ids.len() - 1]));
    }
    assert(integers_in(items) =~= ids);
}

proof fn lemma_champions_in_order(items: Seq<JsonView>, ids: Seq<i64>)
    requires
        items.len() == ids.len(),
        forall|i: int|
            0 <= i < items.len() ==> (#[trigger] items[i]).integer_field("championId"@) == Some(
                ids[i],
            ),
    ensures
        champions_in(items) == ids,
    decreases items.len(),
{
    if items.len() > 0 {
        let rest = items.drop_last();
        assert forall|i: int| 0 <= i < rest.len() implies (#[trigger] rest[i]).integer_field(
            "championId"@,
        ) == Some(ids.drop_last()[i]) by {
            assert(rest[i] == items[i]);
        }
        lemma_champions_in_order(rest, ids.drop_last());
        assert(items[items.len() - 1].integer_field("championId"@) == Some(ids[ids.len() - 1]));
    }
    assert(champions_in(items) =~= ids);
}

/// A champion is on the bench exactly if the session lists its number under
/// `benchChampionIds` or, where it lists nothing there, has an entry for it under
/// `benchChampions`.
pub proof fn law_bench_is_what_the_session_lists(session: JsonView, id: i64)
    ensures
        session.items_field("benchChampionIds"@) matches Some(ids) && ids.len() > 0 ==> (bench_in(
            session,
        ).contains(id) <==> exists|i: int|
            0 <= i < session.items_field("benchChampionIds"@)->0.len()
                && (#[trigger] session.items_field("benchChampionIds"@)->0[i]).integer() == Some(id)),
        !(session.items_field("benchChampionIds"@) matches Some(ids) && ids.len() > 0)
            && session.items_field("benchChampions"@) is Some ==> (bench_in(session).contains(id)
            <==> exists|i: int|
            0 <= i < session.items_field("benchChampions"@)->0.len()
                && (#[trigger] session.items_field("benchChampions"@)->0[i]).integer_field(
                "championId"@,
            ) == Some(id)),
        !(session.items_field("benchChampionIds"@) matches Some(ids) && ids.len() > 0)
            && session.items_field("benchChampions"@) is None ==> bench_in(session).len() == 0,
{
    if session.items_field("benchChampionIds"@) is Some {
        lemma_integers_listed(session.items_field("benchChampionIds"@)->0, id);
    }
    if session.items_field("benchChampions"@) is Some {
        lemma_champions_listed(session.items_field("benchChampions"@)->0, id);
    }
}

/// The slots of the bench are in the order of the session: where every entry gives a number,
/// the champion of a slot is the one that stands at its place.
pub proof fn law_bench_keeps_its_order(session: JsonView, items: Seq<JsonView>, ids: Seq<i64>)
    requires
        items.len() == ids.len(),
        items.len() > 0,
    ensures
        session.items_field("benchChampionIds"@) == Some(items) && (forall|i: int|
            0 <= i < items.len() ==> (#[trigger] items[i]).integer() == Some(ids[i])) ==> bench_in(
            session,
        ) == ids,
        session.items_field("benchChampionIds"@) is None && session.items_field("benchChampions"@)
            == Some(items) && (forall|i: int|
            0 <= i < items.len() ==> (#[trigger] items[i]).integer_field("championId"@) == Some(
                ids[i],
            )) ==> bench_in(session) == ids,
{
    if forall|i: int| 0 <= i < items.len() ==> (#[trigger] items[i]).integer() == Some(ids[i]) {
        lemma_integers_in_order(items, ids);
    }
    if forall|i: int|
        0 <= i < items.len() ==> (#[trigger] items[i]).integer_field("championId"@) == Some(ids[i]) {
        lemma_champions_in_order(items, ids);
    }
}

proof fn lemma_first_in_cell(team: Seq<JsonView>, cell: JsonView, i: int)
    requires
        0 <= i < team.len(),
        team[i].field("cellId"@) == Some(cell),
        forall|k: int| 0 <= k < i ==> (#[trigger] team[k]).field("cellId"@) != Some(cell),
    ensures
        first_in_cell(team, cell) == Some(team[i]),
    decreases i,
{
    if i > 0 {
        assert(team[0].field("cellId"@) != Some(cell));
        let rest = team.drop_first();
        assert(rest[i - 1] == team[i]);
        assert forall|k: int| 0 <= k < i - 1 implies (#[trigger] rest[k]).field("cellId"@) != Some(
            cell,
        ) by {
            assert(rest[k] == team[k + 1]);
        }
        lemma_first_in_cell(rest, cell, i - 1);
    }
}

/// The entry at `i` of the player's team is the player's own: the first with the cell that
/// the session names under `localPlayerCellId`.
pub open spec fn sits_at(session: JsonView, i: int) -> bool {
    &&& session.field("localPlayerCellId"@) matches Some(cell)
    &&& session.items_field("myTeam"@) matches Some(team)
    &&& 0 <= i < team.len()
    &&& team[i].field("cellId"@) == Some(cell)
    &&& forall|k: int| 0 <= k < i ==> (#[trigger] team[k]).field("cellId"@) != Some(cell)
}

/// The player's own entry is the one in their cell.
pub proof fn law_local_player_sits_in_their_cell(session: JsonView, i: int)
    requires
        sits_at(session, i),
    ensures
        local_player(session) == Some(session.items_field("myTeam"@)->0[i]),
{
    lemma_first_in_cell(
        session.items_field("myTeam"@)->0,
        session.field("localPlayerCellId"@)->0,
        i,
    );
}

/// Where nobody of the player's team sits in the player's cell, or the session names no cell,
/// there is no entry of the player.
pub proof fn law_no_cell_no_player(session: JsonView)
    requires
        forall|i: int| !#[trigger] sits_at(session, i),
    ensures
        local_player(session) is None,
{
    if session.field("localPlayerCellId"@) is Some && session.items_field("myTeam"@) is Some {
        let cell = session.field("localPlayerCellId"@)->0;
        let team = session.items_field("myTeam"@)->0;
        if first_in_cell(team, cell) is Some {
            lemma_some_first(team, cell);
            let i = choose|i: int|
                0 <= i < team.len() && (#[trigger] team[i]).field("cellId"@) == Some(cell)
                    && forall|k: int|
                    0 <= k < i ==> (#[trigger] team[k]).field("cellId"@) != Some(cell);
            assert(sits_at(session, i));
        }
    }
}

proof fn lemma_some_first(team: Seq<JsonView>, cell: JsonView)
    requires
        first_in_cell(team, cell) is Some,
    ensures
        exists|i: int|
            0 <= i < team.len() && (#[trigger] team[i]).field("cellId"@) == Some(cell) && forall|k: int|
                0 <= k < i ==> (#[trigger] team[k]).field("cellId"@) != Some(cell),
    decreases team.len(),
{
    if team[0].field("cellId"@) != Some(cell) {
        let rest = team.drop_first();
        lemma_some_first(rest, cell);
        let j = choose|i: int|
            0 <= i < rest.len() && (#[trigger] rest[i]).field("cellId"@) == Some(cell) && forall|k: int|
                0 <= k < i ==> (#[trigger] rest[k]).field("cellId"@) != Some(cell);
        assert(team[j + 1] == rest[j]);
        assert forall|k: int| 0 <= k < j + 1 implies (#[trigger] team[k]).field("cellId"@) != Some(
            cell,
        ) by {
            if k > 0 {
                assert(team[k] == rest[k - 1]);
            }
        }
    } else {
        assert(team[0].field("cellId"@) == Some(cell));
    }
}

proof fn lemma_objects_parts(a: Seq<JsonView>, b: Seq<JsonView>)
    ensures
        objects_in(a + b) == objects_in(a) + objects_in(b),
    decreases b.len(),
{
    if b.len() == 0 {
        assert(a + b =~= a);
        assert(objects_in(a) + objects_in(b) =~= objects_in(a));
    } else {
        assert((a + b).drop_last() =~= a + b.drop_last());
        lemma_objects_parts(a, b.drop_last());
        assert(objects_in(a + b) =~= objects_in(a) + objects_in(b));
    }
}

/// The objects of a list are those of its items that are objects, in their order.
pub proof fn law_objects_are_picked_out(a: Seq<JsonView>, v: JsonView, b: Seq<JsonView>)
    ensures
        v is Object ==> objects_in(a.push(v) + b) == objects_in(a).push(v) + objects_in(b),
        !(v is Object) ==> objects_in(a.push(v) + b) == objects_in(a) + objects_in(b),
        objects_in(Seq::empty()).len() == 0,
{
    lemma_objects_parts(a.push(v), b);
    assert(a.push(v).drop_last() =~= a);
    if v is Object {
        assert(objects_in(a.push(v)) == objects_in(a).push(v));
    }
}

proof fn lemma_first_own(
    actions: Seq<JsonView>,
    cell: JsonView,
    action_type: Seq<char>,
    only_unfinished: bool,
)
    ensures
        match first_own_action(actions, cell, action_type, only_unfinished) {
            Some(action) => exists|i: int|
                0 <= i < actions.len() && #[trigger] actions[i] == action && is_own_action(
                    action,
                    cell,
                    action_type,
                    only_unfinished,
                ) && forall|k: int|
                    0 <= k < i ==> !is_own_action(
                        #[trigger] actions[k],
                        cell,
                        action_type,
                        only_unfinished,
                    ),
            None => forall|k: int|
                0 <= k < actions.len() ==> !is_own_action(
                    #[trigger] actions[k],
                    cell,
                    action_type,
                    only_unfinished,
                ),
        },
    decreases actions.len(),
{
    if actions.len() > 0 {
        if is_own_action(actions[0], cell, action_type, only_unfinished) {
            assert(actions[0] == actions[0]);
        } else {
            let rest = actions.drop_first();
            lemma_first_own(rest, cell, action_type, only_unfinished);
            assert(forall|k: int| 0 <= k < rest.len() ==> #[trigger] rest[k] == actions[k + 1]);
            assert(forall|k: int| 0 < k < actions.len() ==> #[trigger] actions[k] == rest[k - 1]);
            if first_own_action(rest, cell, action_type, only_unfinished) is Some {
                let action = first_own_action(rest, cell, action_type, only_unfinished)->0;
                let i = choose|i: int|
                    0 <= i < rest.len() && #[trigger] rest[i] == action && forall|k: int|
                        0 <= k < i ==> !is_own_action(
                            #[trigger] rest[k],
                            cell,
                            action_type,
                            only_unfinished,
                        );
                assert(actions[i + 1] == action);
                assert forall|k: int| 0 <= k < i + 1 implies !is_own_action(
                    #[trigger] actions[k],
                    cell,
                    action_type,
                    only_unfinished,
                ) by {
                    if k > 0 {
                        assert(actions[k] == rest[k - 1]);
                    }
                }
            }
        }
    }
}

/// The action that is found is the player's own, of the type that was asked for, and not
/// completed where that was asked for; where none is found, no action of the session is.
pub proof fn law_own_action_is_the_players(
    session: JsonView,
    action_type: Seq<char>,
    only_unfinished: bool,
    cell: JsonView,
    i: int,
)
    requires
        session.field("localPlayerCellId"@) == Some(cell),
        0 <= i < actions_in(session).len(),
    ensures
        local_action(session, action_type, only_unfinished) matches Some(action) ==> {
            &&& actions_in(session).contains(action)
            &&& action.field("actorCellId"@) == Some(cell)
            &&& action.field("type"@) == Some(JsonView::Str(action_type))
            &&& only_unfinished ==> action.field("completed"@) != Some(JsonView::Bool(true))
        },
        local_action(session, action_type, only_unfinished) is None ==> !(actions_in(
            session,
        )[i].field("actorCellId"@) == Some(cell) && actions_in(session)[i].field("type"@) == Some(
            JsonView::Str(action_type),
        ) && (!only_unfinished || actions_in(session)[i].field("completed"@) != Some(
            JsonView::Bool(true),
        ))),
{
    lemma_first_own(actions_in(session), cell, action_type, only_unfinished);
    if local_action(session, action_type, only_unfinished) is None {
        assert(!is_own_action(actions_in(session)[i], cell, action_type, only_unfinished));
    }
}

/// The actions of a session are those of its rounds, one after the other: an object is a
/// round of one action, and a list one of the actions that it lists.
pub proof fn law_rounds_follow_each_other(rounds: Seq<JsonView>, round: JsonView)
    ensures
        rounds_actions(Seq::empty()).len() == 0,
        round is Object ==> rounds_actions(rounds.push(round)) == rounds_actions(rounds).push(round),
        round matches JsonView::Array(items) ==> rounds_actions(rounds.push(round))
            == rounds_actions(rounds) + objects_in(items),
        !(round is Object) && !(round is Array) ==> rounds_actions(rounds.push(round))
            == rounds_actions(rounds),
{
    assert(rounds.push(round).drop_last() =~= rounds);
    assert(rounds_actions(rounds) + seq![round] =~= rounds_actions(rounds).push(round));
    assert(rounds_actions(rounds) + Seq::<JsonView>::empty() =~= rounds_actions(rounds));
}

proof fn lemma_champion_names_last(champions: Seq<JsonView>, i: int, id: i64)
    requires
        0 <= i < champions.len(),
        champions[i].integer_field("id"@) == Some(id),
        forall|k: int|
            i < k < champions.len() ==> (#[trigger] champions[k]).integer_field("id"@) != Some(id),
    ensures
        champion_names(champions).contains_key(id),
        champion_names(champions)[id] == first_text(
            champions[i],
            "name"@,
            "alias"@,
            "Champion-"@ + decimal_int(id as int),
        ),
    decreases champions.len(),
{
    if i < champions.len() - 1 {
        assert(champions[champions.len() - 1].integer_field("id"@) != Some(id));
        let rest = champions.drop_last();
        assert(rest[i] == champions[i]);
        assert forall|k: int| i < k < rest.len() implies (#[trigger] rest[k]).integer_field("id"@)
            != Some(id) by {
            assert(rest[k] == champions[k]);
        }
        lemma_champion_names_last(rest, i, id);
    }
}

/// A champion goes by the name in its entry, by its alias where it has no name, and by its
/// number where it has neither.
pub proof fn law_champions_have_names(champions: Seq<JsonView>, i: int, id: i64)
    requires
        0 <= i < champions.len(),
        champions[i].integer_field("id"@) == Some(id),
        forall|k: int|
            i < k < champions.len() ==> (#[trigger] champions[k]).integer_field("id"@) != Some(id),
    ensures
        champion_names(champions).contains_key(id),
        champions[i].field("name"@) matches Some(JsonView::Str(name)) ==> champion_names(
            champions,
        )[id] == name,
        champions[i].field("name"@) is None && (champions[i].field("alias"@)
            matches Some(JsonView::Str(_))) ==> Some(champion_names(champions)[id])
            == champions[i].text_field("alias"@),
        champions[i].field("name"@) is None && champions[i].field("alias"@) is None
            ==> champion_names(champions)[id] == "Champion-"@ + decimal_int(id as int),
{
    lemma_champion_names_last(champions, i, id);
}

/// No champion has a name that the list does not give it.
pub proof fn law_only_listed_champions_have_names(champions: Seq<JsonView>, id: i64)
    requires
        forall|k: int|
            0 <= k < champions.len() ==> (#[trigger] champions[k]).integer_field("id"@) != Some(id),
    ensures
        !champion_names(champions).contains_key(id),
    decreases champions.len(),
{
    if champions.len() > 0 {
        assert(champions[champions.len() - 1].integer_field("id"@) != Some(id));
        let rest = champions.drop_last();
        assert forall|k: int| 0 <= k < rest.len() implies (#[trigger] rest[k]).integer_field("id"@)
            != Some(id) by {
            assert(rest[k] == champions[k]);
        }
        law_only_listed_champions_have_names(rest, id);
    }
}

/// A champion is hovered or locked with an unfinished pick of the player's own, by its
/// number; the request says which champion, and whether it is locked.
pub proof fn law_act_names_action_and_champion(
    answer: Result<JsonView, ErrorView>,
    champion_id: i64,
    completed: bool,
)
    ensures
        answer matches Err(e) ==> act_after_session(answer, champion_id as int, completed)
            == Err::<RequestView, ErrorView>(e),
        answer matches Ok(session) ==> (act_after_session(answer, champion_id as int, completed)
            matches Ok(q) ==> {
            &&& local_action(session, "pick"@, true) matches Some(action)
            &&& action.integer_field("id"@) matches Some(id)
            &&& q.method is Patch
            &&& q.endpoint == "/lol-champ-select/v1/session/actions/"@ + decimal_int(id as int)
            &&& q.body matches Some(body)
            &&& body.field("championId"@) == Some(whole_view(champion_id as int))
            &&& body.field("completed"@) == Some(JsonView::Bool(completed))
        }),
        answer matches Ok(session) ==> (act_after_session(answer, champion_id as int, completed)
            is Ok <==> (local_action(session, "pick"@, true) matches Some(action)
            && action.integer_field("id"@) is Some)),
{
    reveal_strlit("championId");
    reveal_strlit("completed");
    assert("championId"@.len() != "completed"@.len());
}

/// The actions are those of the rounds that the session lists under `actions`; a session that
/// lists no rounds has none.
pub proof fn law_actions_are_listed_in_rounds(session: JsonView, rounds: Seq<JsonView>)
    ensures
        session.field("actions"@) == Some(JsonView::Array(rounds)) ==> actions_in(session)
            == rounds_actions(rounds),
        !(session.field("actions"@) matches Some(v) && v is Array) ==> actions_in(session).len()
            == 0,
{
}

/// Without an own pick that is open, or without its number, nothing is asked for, and the
/// complaint says which of the two is missing.
pub proof fn law_no_pick_no_act(session: JsonView, champion_id: int, completed: bool)
    ensures
        local_action(session, "pick"@, true) is None ==> act_after_session(
            Ok(session),
            champion_id,
            completed,
        ) == Err::<RequestView, ErrorView>(ErrorView::Other("当前没有可用的 pick 行动"@)),
        local_action(session, "pick"@, true) matches Some(action) && action.integer_field("id"@)
            is None ==> act_after_session(Ok(session), champion_id, completed) == Err::<
            RequestView,
            ErrorView,
        >(ErrorView::Other("action 缺少 id 字段"@)),
{
}

} // verus!
