//! The reaction to a click on a bench slot: trying to get its champion until it is had or
//! gone, or until the next click.

use crate::app::handlers::utils::{OverlayCmd, OverlayCmdView};
use crate::app::sniper::{contains_id, holds, holds_champion};
use crate::app::state::{RuntimeState, RuntimeView};
use crate::json::{Json, JsonView};
use crate::lcu::api::champ_select::bench_in;
use crate::lcu::api::{json_result, ErrorView, LcuApiError, LcuClient};
use vstd::prelude::*;

verus! {

/// An attempt to get a champion. It goes on as long as its generation is the current one.
#[derive(Clone, Copy, Debug, PartialEq, Eq, Structural)]
pub struct Pick {
    pub champion_id: i64,
    pub generation: u64,
}

/// What follows a click.
#[derive(Debug)]
pub enum ClickReaction {
    /// Nothing: the slot has no champion.
    Ignore,
    /// An attempt is begun, and the slot is highlighted.
    Start(Pick, OverlayCmd),
    /// The attempt is given up, and nothing is highlighted.
    Cancel(OverlayCmd),
}

/// What a `ClickReaction` holds.
pub enum ClickReactionView {
    Ignore,
    Start(Pick, OverlayCmdView),
    Cancel(OverlayCmdView),
}

impl View for ClickReaction {
    type V = ClickReactionView;

    open spec fn view(&self) -> ClickReactionView {
        match self {
            ClickReaction::Ignore => ClickReactionView::Ignore,
            ClickReaction::Start(p, c) => ClickReactionView::Start(*p, c@),
            ClickReaction::Cancel(c) => ClickReactionView::Cancel(c@),
        }
    }
}

/// What follows a click on a slot: the state, the current generation, and what is done.
/// Every click that does something ends the attempt before it.
pub open spec fn on_click(s: RuntimeView, generation: u64, slot: usize) -> (
    RuntimeView,
    u64,
    ClickReactionView,
) {
    if slot >= s.bench.len() {
        (s, generation, ClickReactionView::Ignore)
    } else {
        let next = (generation + 1) as u64;
        if s.pick_slot == Some(slot) {
            (
                RuntimeView { pick_slot: None, ..s },
                next,
                ClickReactionView::Cancel(OverlayCmdView::ClearSelectedSlot),
            )
        } else {
            (
                RuntimeView { pick_slot: Some(slot), ..s },
                next,
                ClickReactionView::Start(
                    Pick { champion_id: s.bench[slot as int], generation: next },
                    OverlayCmdView::SetSelectedSlot(slot),
                ),
            )
        }
    }
}

/// Reacts to a click on a slot.
pub fn handle_overlay_click(state: &mut RuntimeState, generation: &mut u64, slot_index: usize) -> (r:
    ClickReaction)
    requires
        *old(generation) < u64::MAX,
    ensures
        (final(state)@, *final(generation), r@) == on_click(
            old(state)@,
            *old(generation),
            slot_index,
        ),
{
    if slot_index >= state.current_bench_ids.len() {
        return ClickReaction::Ignore;
    }
    let already = match state.active_pick_slot {
        Some(slot) => slot == slot_index,
        None => false,
    };
    let champion_id: i64 = state.current_bench_ids[slot_index];
    *generation += 1;
    state.cancel_pick_task();
    if already {
        ClickReaction::Cancel(OverlayCmd::ClearSelectedSlot)
    } else {
        state.active_pick_slot = Some(slot_index);
        ClickReaction::Start(
            Pick { champion_id, generation: *generation },
            OverlayCmd::SetSelectedSlot(slot_index),
        )
    }
}

/// The end of an attempt: only the current one clears what it highlighted.
pub open spec fn at_end(p: Pick, s: RuntimeView, generation: u64) -> (
    RuntimeView,
    Option<OverlayCmdView>,
) {
    if generation == p.generation {
        (RuntimeView { pick_slot: None, ..s }, Some(OverlayCmdView::ClearSelectedSlot))
    } else {
        (s, None)
    }
}

/// An attempt goes on after the client's answer on the session: the session is there, the
/// player does not have the champion, and it is on the bench.
pub open spec fn pick_goes_on(p: Pick, answer: Result<JsonView, ErrorView>) -> bool {
    answer is Ok && !holds(answer->Ok_0, p.champion_id) && bench_in(answer->Ok_0).contains(
        p.champion_id,
    )
}

impl Pick {
    /// Whether the attempt is still the current one.
    pub fn is_current(&self, generation: u64) -> (r: bool)
        ensures
            r == (generation == self.generation),
    {
        generation == self.generation
    }

    /// Whether the attempt goes on after the client's answer on the session.
    pub fn loop_pick_until_refresh(&self, answer: &Result<Json, LcuApiError>) -> (r: bool)
        ensures
            r == pick_goes_on(*self, json_result(*answer)),
    {
        match answer {
            Ok(session) => {
                if holds_champion(session, self.champion_id) {
                    return false;
                }
                let bench = LcuClient::extract_bench_champion_ids(session);
                contains_id(&bench, self.champion_id)
            },
            Err(_) => false,
        }
    }

    /// Ends the attempt: where it is still the current one, nothing is being tried for and
    /// nothing is highlighted any more.
    pub fn finish(&self, state: &mut RuntimeState, generation: u64) -> (r: Option<OverlayCmd>)
        ensures
            final(state)@ == at_end(*self, old(state)@, generation).0,
            at_end(*self, old(state)@, generation).1 == match r {
                Some(c) => Some(c@),
                None => None,
            },
    {
        if generation == self.generation {
            state.active_pick_slot = None;
            Some(OverlayCmd::ClearSelectedSlot)
        } else {
            None
        }
    }
}

/// A click ends the attempt that was begun before it, whichever slot it is on.
pub proof fn law_click_ends_earlier_attempt(s: RuntimeView, generation: u64, slot: usize, p: Pick)
    requires
        generation < u64::MAX,
        p.generation == generation,
        slot < s.bench.len(),
    ensures
        on_click(s, generation, slot).1 != p.generation,
{
}

/// A second click on the same slot gives the champion up.
pub proof fn law_second_click_cancels(s: RuntimeView, generation: u64, slot: usize)
    requires
        generation < u64::MAX,
        slot < s.bench.len(),
        s.pick_slot != Some(slot),
    ensures
        ({
            let (once, g, first) = on_click(s, generation, slot);
            let (twice, h, second) = on_click(once, g, slot);
            &&& first is Start
            &&& second is Cancel
            &&& twice.pick_slot is None
        }),
{
}

} // verus!
