//! Accepting a match: a check in progress is waited for, looked at once more, and then
//! accepted, unless something else happened meanwhile.

use crate::app::config::AppConfig;
use crate::app::handlers::utils::{data_of, event_data};
use crate::json::{Json, JsonView};
use crate::lcu::api::{json_result, ErrorView, LcuApiError};
use crate::text::str_eq;
use vstd::prelude::*;

verus! {

/// The state of accepting matches.
#[derive(Clone, Copy, Debug, PartialEq, Eq, Structural)]
pub struct ReadyCheckState {
    /// A match is going to be accepted.
    pub pending_accept: bool,
    /// How many checks were over before they were accepted.
    pub generation: u64,
}

/// A match that is going to be accepted after a while.
#[derive(Clone, Copy, Debug, PartialEq, Eq, Structural)]
pub struct PendingAccept {
    pub delay_secs: u64,
    pub generation: u64,
    pub event_id: Option<i64>,
}

/// A check is over: it is not in progress, or the player has answered it.
pub open spec fn check_over(data: JsonView) -> bool {
    data.text_field("state"@) != Some("InProgress"@) || (data.text_field("playerResponse"@) matches Some(
        r,
    ) && r != "None"@)
}

/// What an event of a ready check means: the state after it, and the match that is going
/// to be accepted, if there is a new one.
pub open spec fn on_check(s: ReadyCheckState, config: AppConfig, event: JsonView) -> (
    ReadyCheckState,
    Option<PendingAccept>,
) {
    match data_of(event) {
        Some(data) => if check_over(data) {
            (
                ReadyCheckState {
                    pending_accept: false,
                    generation: (s.generation + 1) as u64,
                },
                None,
            )
        } else if !config.auto_accept_enabled || s.pending_accept {
            (s, None)
        } else {
            (
                ReadyCheckState { pending_accept: true, ..s },
                Some(
                    PendingAccept {
                        delay_secs: config.auto_accept_delay_secs,
                        generation: s.generation,
                        event_id: data.integer_field("id"@),
                    },
                ),
            )
        },
        None => (s, None),
    }
}

/// The match is still going to be accepted after the wait: nothing has cancelled it.
pub open spec fn still_pending(s: ReadyCheckState, p: PendingAccept) -> bool {
    s.pending_accept && s.generation == p.generation
}

/// The check, looked at once more, is the one that was waited for and is in progress.
pub open spec fn confirmed(p: PendingAccept, answer: Result<JsonView, ErrorView>) -> bool {
    &&& answer is Ok
    &&& answer->Ok_0.text_field("state"@) == Some("InProgress"@)
    &&& p.event_id matches Some(id) ==> (answer->Ok_0.integer_field("id"@) matches Some(now) ==> id
        == now)
}

/// What is remembered once the check was looked at: a match that is not accepted is no
/// longer going to be.
pub open spec fn after_look(s: ReadyCheckState, accepted: bool) -> ReadyCheckState {
    if accepted {
        s
    } else {
        ReadyCheckState { pending_accept: false, ..s }
    }
}

impl ReadyCheckState {
    /// No match is going to be accepted.
    pub fn new() -> (r: Self)
        ensures
            r == (ReadyCheckState { pending_accept: false, generation: 0 }),
    {
        ReadyCheckState { pending_accept: false, generation: 0 }
    }

    /// Reacts to an event of a ready check. Returns the match that is going to be accepted,
    /// to be gone on with after its delay.
    pub fn handle_ready_check(&mut self, config: &AppConfig, event: &Json) -> (r: Option<
        PendingAccept,
    >)
        requires
            old(self).generation < u64::MAX,
        ensures
            (*final(self), r) == on_check(*old(self), *config, event@),
    {
        let data = match event_data(event) {
            Some(d) => d,
            None => {
                return None;
            },
        };
        let in_progress = match data.get_str("state") {
            Some(s) => str_eq(s, "InProgress"),
            None => false,
        };
        let answered = match data.get_str("playerResponse") {
            Some(s) => !str_eq(s, "None"),
            None => false,
        };
        if !in_progress || answered {
            self.pending_accept = false;
            self.generation += 1;
            return None;
        }
        if !config.auto_accept_enabled || self.pending_accept {
            return None;
        }
        self.pending_accept = true;
        Some(
            PendingAccept {
                delay_secs: config.auto_accept_delay_secs,
                generation: self.generation,
                event_id: data.get_i64("id"),
            },
        )
    }

    /// Whether the check is to be looked at once more after the wait.
    pub fn after_delay(&self, pending: &PendingAccept) -> (r: bool)
        ensures
            r == still_pending(*self, *pending),
    {
        self.pending_accept && self.generation == pending.generation
    }

    /// Whether the match is to be accepted, once the check was looked at. Where it is not,
    /// it is no longer going to be.
    pub fn after_check(&mut self, pending: &PendingAccept, answer: &Result<Json, LcuApiError>) -> (r:
        bool)
        ensures
            r == confirmed(*pending, json_result(*answer)),
            *final(self) == after_look(*old(self), r),
    {
        let current = match answer {
            Ok(v) => v,
            Err(_) => {
                self.pending_accept = false;
                return false;
            },
        };
        let in_progress = match current.get_str("state") {
            Some(s) => str_eq(s, "InProgress"),
            None => false,
        };
        if !in_progress {
            self.pending_accept = false;
            return false;
        }
        match (pending.event_id, current.get_i64("id")) {
            (Some(a), Some(b)) => {
                if a != b {
                    self.pending_accept = false;
                    return false;
                }
            },
            _ => {},
        }
        true
    }

    /// The match was accepted, or could not be.
    pub fn after_accept(&mut self)
        ensures
            *final(self) == (ReadyCheckState { pending_accept: false, ..*old(self) }),
    {
        self.pending_accept = false;
    }
}

/// While a match is going to be accepted no second one is.
pub proof fn law_one_accept_at_a_time(s: ReadyCheckState, config: AppConfig, event: JsonView)
    requires
        s.pending_accept,
    ensures
        on_check(s, config, event).1 is None,
{
}

/// A match that is going to be accepted no longer is once its check is over, even where
/// another check has begun meanwhile.
pub proof fn law_cancelled_match_is_not_accepted(
    s: ReadyCheckState,
    config: AppConfig,
    event: JsonView,
    later: JsonView,
    p: PendingAccept,
)
    requires
        s.generation < u64::MAX,
        still_pending(s, p),
        data_of(event) is Some && check_over(data_of(event)->0),
        data_of(later) is Some && !check_over(data_of(later)->0),
    ensures
        !still_pending(on_check(s, config, event).0, p),
        !still_pending(on_check(on_check(s, config, event).0, config, later).0, p),
{
}

} // verus!
