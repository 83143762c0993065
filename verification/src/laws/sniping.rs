//! When an attempt to get a champion goes on, and when it is over.

use crate::app::handlers::overlay_click::{
    at_end, on_click, pick_goes_on, ClickReactionView, Pick,
};
use crate::app::handlers::utils::OverlayCmdView;
use crate::app::sniper::{begun, verdict, waited, SnipeEnd, SnipeStep, SNIPE_INTERVAL_MS};
use crate::app::state::RuntimeView;
use crate::json::JsonView;
use crate::laws::sessions::{
    law_bench_is_what_the_session_lists, law_local_player_sits_in_their_cell, law_no_cell_no_player,
    sits_at,
};
use crate::lcu::api::ErrorView;
use crate::lcu::api::champ_select::bench_in;
use vstd::prelude::*;

verus! {

/// The player's entry gives the champion that they have.
pub proof fn law_got_means_having_it(session: JsonView, i: int, has: i64, champion_id: i64)
    requires
        sits_at(session, i),
        session.items_field("myTeam"@)->0[i].integer_field("championId"@) == Some(has),
    ensures
        verdict(Ok(session), champion_id) == SnipeStep::End(SnipeEnd::Got) <==> has == champion_id,
        has != champion_id && bench_in(session).contains(champion_id) ==> verdict(
            Ok(session),
            champion_id,
        ) == SnipeStep::Swap,
        has != champion_id && !bench_in(session).contains(champion_id) ==> verdict(
            Ok(session),
            champion_id,
        ) == SnipeStep::End(SnipeEnd::Gone),
{
    law_local_player_sits_in_their_cell(session, i);
}

/// A player who has no champion, or who is not in the session, has not got the one that is
/// being sniped: it is asked for again as long as it is on the bench.
pub proof fn law_no_champion_is_not_got(session: JsonView, champion_id: i64)
    requires
        forall|i: int| #[trigger]
            sits_at(session, i) ==> session.items_field("myTeam"@)->0[i].integer_field(
                "championId"@,
            ) is None,
    ensures
        verdict(Ok(session), champion_id) == if bench_in(session).contains(champion_id) {
            SnipeStep::Swap
        } else {
            SnipeStep::End(SnipeEnd::Gone)
        },
{
    if exists|i: int| #[trigger] sits_at(session, i) {
        let i = choose|i: int| #[trigger] sits_at(session, i);
        law_local_player_sits_in_their_cell(session, i);
    } else {
        law_no_cell_no_player(session);
    }
}

/// A champion that the session lists by number on the bench is asked for again while the
/// player has another one; one that it does not list is gone.
pub proof fn law_listed_champion_is_asked_for(
    session: JsonView,
    i: int,
    has: i64,
    champion_id: i64,
    k: int,
)
    requires
        sits_at(session, i),
        session.items_field("myTeam"@)->0[i].integer_field("championId"@) == Some(has),
        has != champion_id,
        session.items_field("benchChampionIds"@) matches Some(ids) && ids.len() > 0,
    ensures
        0 <= k < session.items_field("benchChampionIds"@)->0.len() && session.items_field(
            "benchChampionIds"@,
        )->0[k].integer() == Some(champion_id) ==> verdict(Ok(session), champion_id)
            == SnipeStep::Swap,
        (forall|l: int|
            0 <= l < session.items_field("benchChampionIds"@)->0.len()
                ==> (#[trigger] session.items_field("benchChampionIds"@)->0[l]).integer() != Some(
                champion_id,
            )) ==> verdict(Ok(session), champion_id) == SnipeStep::End(SnipeEnd::Gone),
{
    law_got_means_having_it(session, i, has, champion_id);
    law_bench_is_what_the_session_lists(session, champion_id);
}

/// Without a session sniping is over, and nothing is said to have been got.
pub proof fn law_no_session_ends_sniping(e: ErrorView, champion_id: i64)
    ensures
        verdict(Err(e), champion_id) == SnipeStep::End(SnipeEnd::NoSession),
{
}

/// A click on a slot tries for the champion of that slot and highlights the slot.
pub proof fn law_click_tries_for_its_slot(s: RuntimeView, generation: u64, slot: usize)
    requires
        generation < u64::MAX,
        slot < s.bench.len(),
        s.pick_slot != Some(slot),
    ensures
        ({
            let (after, g, reaction) = on_click(s, generation, slot);
            &&& after.pick_slot == Some(slot)
            &&& after.bench == s.bench
            &&& after.analysis_done == s.analysis_done && after.ingame_done == s.ingame_done
            &&& reaction matches ClickReactionView::Start(p, command)
            &&& p.champion_id == s.bench[slot as int]
            &&& p.generation == g
            &&& command == OverlayCmdView::SetSelectedSlot(slot)
        }),
{
}

/// A click on the slot that is being tried for takes the highlight away; a click beyond the
/// bench does nothing.
pub proof fn law_click_gives_up_or_does_nothing(s: RuntimeView, generation: u64, slot: usize)
    requires
        generation < u64::MAX,
    ensures
        slot < s.bench.len() && s.pick_slot == Some(slot) ==> on_click(s, generation, slot).2
            == ClickReactionView::Cancel(OverlayCmdView::ClearSelectedSlot) && on_click(
            s,
            generation,
            slot,
        ).0.pick_slot is None,
        slot >= s.bench.len() ==> on_click(s, generation, slot) == (
            s,
            generation,
            ClickReactionView::Ignore,
        ),
{
}

/// An attempt goes on exactly as long as the player has another champion and the one that is
/// tried for is on the bench.
pub proof fn law_attempt_ends_when_it_is_got(p: Pick, session: JsonView, i: int, has: i64)
    requires
        sits_at(session, i),
        session.items_field("myTeam"@)->0[i].integer_field("championId"@) == Some(has),
    ensures
        pick_goes_on(p, Ok(session)) <==> has != p.champion_id && bench_in(session).contains(
            p.champion_id,
        ),
{
    law_local_player_sits_in_their_cell(session, i);
}

/// Without a session an attempt is over.
pub proof fn law_attempt_ends_without_session(p: Pick, e: ErrorView)
    ensures
        !pick_goes_on(p, Err(e)),
{
}

/// An attempt that was cancelled is over, before it begins and after every wait; otherwise
/// the swap is asked for first, and the session after the wait.
pub proof fn law_cancelled_attempts_are_over()
    ensures
        begun(true) == SnipeStep::End(SnipeEnd::Cancelled),
        waited(true) == SnipeStep::End(SnipeEnd::Cancelled),
        begun(false) == SnipeStep::Swap,
        waited(false) == SnipeStep::Check,
        SNIPE_INTERVAL_MS == 300,
{
}

/// Only the attempt that is still the current one clears the highlighted slot when it ends;
/// one that a later click has ended leaves that click's slot alone.
pub proof fn law_only_the_current_attempt_clears(p: Pick, s: RuntimeView, generation: u64)
    ensures
        p.generation == generation ==> at_end(p, s, generation).0.pick_slot is None && at_end(
            p,
            s,
            generation,
        ).1 == Some(OverlayCmdView::ClearSelectedSlot),
        p.generation != generation ==> at_end(p, s, generation).0 == s && at_end(
            p,
            s,
            generation,
        ).1 is None,
        at_end(p, s, generation).0 == (RuntimeView {
            pick_slot: at_end(p, s, generation).0.pick_slot,
            ..s
        }),
{
}

} // verus!
