//! Skipping the honor vote when the client offers it, once for each game.

use crate::app::config::AppConfig;
use crate::app::handlers::utils::{data_of, event_data};
use crate::json::{Json, JsonView};
use crate::lcu::api::{gameflow, LcuApiError};
use crate::text::str_eq;
use vstd::prelude::*;

verus! {

/// How long to wait after the vote before the next screen is clicked away, in
/// milliseconds.
pub const POSTGAME_CONTINUE_DELAY_MS: u64 = 800;

/// The games whose votes were skipped last, and whose last screen was clicked away last.
#[derive(Clone, Copy, Debug, PartialEq, Eq, Structural)]
pub struct HonorState {
    pub last_skipped_honor_game_id: Option<i64>,
    pub last_post_honor_continue_game_id: Option<i64>,
}

/// The game of a ballot.
pub open spec fn ballot_game(event: JsonView) -> Option<i64> {
    match data_of(event) {
        Some(data) => data.integer_field("gameId"@),
        None => None,
    }
}

/// The vote of a ballot is to be skipped: the user wants it, and it is not the vote that
/// was skipped last.
pub open spec fn to_be_skipped(s: HonorState, config: AppConfig, event: JsonView) -> bool {
    config.auto_honor_skip && (ballot_game(event) matches Some(id) ==> s.last_skipped_honor_game_id
        != Some(id))
}

/// What is remembered after an attempt to skip a vote, and whether the next screen is to be
/// clicked away: both only where the vote was skipped.
pub open spec fn after_attempt(
    s: HonorState,
    game: Option<i64>,
    skipped: Result<bool, LcuApiError>,
) -> (HonorState, bool) {
    if skipped is Ok && skipped->Ok_0 {
        (HonorState { last_skipped_honor_game_id: game, ..s }, true)
    } else {
        (s, false)
    }
}

/// The next screen is clicked away in this phase.
pub open spec fn clicks_on(phase: Result<String, LcuApiError>) -> bool {
    phase is Ok && phase->Ok_0@ == gameflow::END_OF_GAME@
}

/// What is remembered after the next screen was clicked away, or was not.
pub open spec fn after_click(s: HonorState, game: Option<i64>, clicked: bool) -> HonorState {
    if clicked {
        HonorState { last_post_honor_continue_game_id: game, ..s }
    } else {
        s
    }
}

impl HonorState {
    /// No vote was skipped yet.
    pub fn new() -> (r: Self)
        ensures
            r == (HonorState {
                last_skipped_honor_game_id: None,
                last_post_honor_continue_game_id: None,
            }),
    {
        HonorState { last_skipped_honor_game_id: None, last_post_honor_continue_game_id: None }
    }

    /// Reacts to a ballot: whether the vote is to be skipped, and for which game.
    pub fn handle_honor_ballot(&self, config: &AppConfig, event: &Json) -> (r: (bool, Option<i64>))
        ensures
            r.0 == to_be_skipped(*self, *config, event@),
            r.1 == ballot_game(event@),
    {
        let game = match event_data(event) {
            Some(data) => data.get_i64("gameId"),
            None => None,
        };
        let seen = match (game, self.last_skipped_honor_game_id) {
            (Some(a), Some(b)) => a == b,
            _ => false,
        };
        (config.auto_honor_skip && !seen, game)
    }

    /// Remembers a vote that was skipped; whether the next screen is to be clicked away. A
    /// failure counts as not skipped.
    pub fn after_skip(&mut self, game: Option<i64>, skipped: &Result<bool, LcuApiError>) -> (r: bool)
        ensures
            *final(self) == after_attempt(*old(self), game, *skipped).0,
            r == after_attempt(*old(self), game, *skipped).1,
    {
        let done = match skipped {
            Ok(b) => *b,
            Err(_) => false,
        };
        if done {
            self.last_skipped_honor_game_id = game;
        }
        done
    }

    /// Whether the next screen is clicked away in a phase: only after a game. A phase that
    /// is not known is none.
    pub fn continue_in(phase: &Result<String, LcuApiError>) -> (r: bool)
        ensures
            r == clicks_on(*phase),
    {
        match phase {
            Ok(p) => str_eq(p.as_str(), gameflow::END_OF_GAME),
            Err(_) => false,
        }
    }

    /// Remembers a screen that was clicked away.
    pub fn after_continue(&mut self, game: Option<i64>, clicked: bool)
        ensures
            *final(self) == after_click(*old(self), game, clicked),
    {
        if clicked {
            self.last_post_honor_continue_game_id = game;
        }
    }
}

/// The vote of a game that was skipped is not skipped again.
pub proof fn law_vote_skipped_once(s: HonorState, config: AppConfig, event: JsonView, id: i64)
    requires
        ballot_game(event) == Some(id),
    ensures
        !to_be_skipped(
            HonorState { last_skipped_honor_game_id: Some(id), ..s },
            config,
            event,
        ),
{
}

} // verus!
