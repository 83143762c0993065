//! Getting a champion from the bench: asking for the swap again and again until the
//! player has the champion or it is gone.

use crate::app::event::{AppEvent, AppEventView};
use crate::json::{Json, JsonView};
use crate::lcu::api::champ_select::{bench_in, local_player};
use crate::lcu::api::{
    bare_request, json_result, ErrorView, LcuApiError, LcuClient, Method, Request,
};
use crate::text::decimal_int;
use vstd::prelude::*;

verus! {

/// How long to wait between two attempts, in milliseconds.
pub const SNIPE_INTERVAL_MS: u64 = 300;

/// Why sniping ended.
#[derive(Clone, Copy, Debug, PartialEq, Eq, Structural)]
pub enum SnipeEnd {
    /// It was cancelled.
    Cancelled,
    /// The player has the champion.
    Got,
    /// The champion is no longer on the bench.
    Gone,
    /// The client did not give its session: champion select is over.
    NoSession,
}

/// What to do next to get a champion.
#[derive(Clone, Copy, Debug, PartialEq, Eq, Structural)]
pub enum SnipeStep {
    /// Ask for the swap, whatever comes of it, and then wait.
    Swap,
    /// Ask for the session.
    Check,
    /// Nothing: it is over, and the main loop is to be told.
    End(SnipeEnd),
}

/// The attempt to get a champion from a bench slot.
#[derive(Clone, Copy, Debug, PartialEq, Eq, Structural)]
pub struct SniperService {
    pub champion_id: i64,
    pub slot_index: usize,
}

/// The player has the champion.
pub open spec fn holds(session: JsonView, champion_id: i64) -> bool {
    local_player(session) is Some && local_player(session)->0.integer_field("championId"@) == Some(
        champion_id,
    )
}

/// What a session means for the attempt.
pub open spec fn verdict(answer: Result<JsonView, ErrorView>, champion_id: i64) -> SnipeStep {
    match answer {
        Ok(session) => if holds(session, champion_id) {
            SnipeStep::End(SnipeEnd::Got)
        } else if !bench_in(session).contains(champion_id) {
            SnipeStep::End(SnipeEnd::Gone)
        } else {
            SnipeStep::Swap
        },
        Err(_) => SnipeStep::End(SnipeEnd::NoSession),
    }
}

/// How an attempt begins.
pub open spec fn begun(cancelled: bool) -> SnipeStep {
    if cancelled {
        SnipeStep::End(SnipeEnd::Cancelled)
    } else {
        SnipeStep::Swap
    }
}

/// How an attempt goes on after the wait.
pub open spec fn waited(cancelled: bool) -> SnipeStep {
    if cancelled {
        SnipeStep::End(SnipeEnd::Cancelled)
    } else {
        SnipeStep::Check
    }
}

/// Whether a list holds a number.
pub fn contains_id(ids: &Vec<i64>, id: i64) -> (r: bool)
    ensures
        r == ids@.contains(id),
{
    let mut i: usize = 0;
    while i < ids.len()
        invariant
            i <= ids@.len(),
            forall|k: int| 0 <= k < i ==> ids@[k] != id,
        decreases ids@.len() - i,
    {
        if ids[i] == id {
            return true;
        }
        i += 1;
    }
    false
}

/// Whether the player has the champion.
pub fn holds_champion(session: &Json, champion_id: i64) -> (r: bool)
    ensures
        r == holds(session@, champion_id),
{
    match LcuClient::get_local_player(session) {
        Some(me) => match me.get_i64("championId") {
            Some(id) => id == champion_id,
            None => false,
        },
        None => false,
    }
}

impl SniperService {
    pub fn new(champion_id: i64, slot_index: usize) -> (r: Self)
        ensures
            r.champion_id == champion_id,
            r.slot_index == slot_index,
    {
        SniperService { champion_id, slot_index }
    }

    /// Begins an attempt, unless it has been cancelled.
    pub fn start_sniping(&self, cancelled: bool) -> (r: SnipeStep)
        ensures
            r == begun(cancelled),
    {
        if cancelled {
            SnipeStep::End(SnipeEnd::Cancelled)
        } else {
            SnipeStep::Swap
        }
    }

    /// The request for the swap.
    pub fn swap_request(&self, client: &LcuClient) -> (r: Request)
        ensures
            r@ == bare_request(
                Method::Post,
                "/lol-champ-select/v1/session/bench/swap/"@ + decimal_int(self.champion_id as int),
            ),
    {
        client.swap_bench_champion(self.champion_id)
    }

    /// Goes on after the wait, unless the attempt was cancelled during it.
    pub fn after_wait(&self, cancelled: bool) -> (r: SnipeStep)
        ensures
            r == waited(cancelled),
    {
        if cancelled {
            SnipeStep::End(SnipeEnd::Cancelled)
        } else {
            SnipeStep::Check
        }
    }

    /// Goes on after the client's answer on the session.
    pub fn after_session(&self, answer: &Result<Json, LcuApiError>) -> (r: SnipeStep)
        ensures
            r == verdict(json_result(*answer), self.champion_id),
    {
        match answer {
            Ok(session) => {
                if holds_champion(session, self.champion_id) {
                    return SnipeStep::End(SnipeEnd::Got);
                }
                let bench = LcuClient::extract_bench_champion_ids(session);
                if !contains_id(&bench, self.champion_id) {
                    return SnipeStep::End(SnipeEnd::Gone);
                }
                SnipeStep::Swap
            },
            Err(_) => SnipeStep::End(SnipeEnd::NoSession),
        }
    }

    /// What the main loop is told at the end.
    pub fn finished(&self) -> (r: AppEvent)
        ensures
            r@ == AppEventView::SniperFinished(self.slot_index),
    {
        AppEvent::SniperFinished(self.slot_index)
    }
}

/// Sniping goes on exactly as long as the client gives its session, the champion is on
/// the bench and the player does not have it.
pub proof fn law_sniping_goes_on(answer: Result<JsonView, ErrorView>, champion_id: i64)
    ensures
        verdict(answer, champion_id) == SnipeStep::Swap <==> answer is Ok && bench_in(
            answer->Ok_0,
        ).contains(champion_id) && !holds(answer->Ok_0, champion_id),
{
}

} // verus!
