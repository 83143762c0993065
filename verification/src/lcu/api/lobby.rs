//! Requests on the lobby, the ready check and the screens after a game.

use crate::json::{Json, JsonView};
use crate::lcu::api::{
    bare_request, json_result, plain_result, ErrorView, LcuApiError, LcuClient, Method, Request,
};
use vstd::prelude::*;

verus! {

/// Whether the statistics were dismissed: not where the client answered with an error.
pub open spec fn dismissed(answer: Result<JsonView, ErrorView>) -> Result<bool, ErrorView> {
    match answer {
        Ok(_) => Ok(true),
        Err(e) => if e is Http {
            Ok(false)
        } else {
            Err(e)
        },
    }
}

impl LcuClient {
    /// Leaves the screens after a game for the lobby.
    pub fn play_again(&self) -> (r: Request)
        ensures
            r@ == bare_request(Method::Post, "/lol-lobby/v2/play-again"@),
    {
        self.post_json("/lol-lobby/v2/play-again", None)
    }

    /// Asks for the lobby.
    pub fn get_lobby(&self) -> (r: Request)
        ensures
            r@ == bare_request(Method::Get, "/lol-lobby/v2/lobby"@),
    {
        self.get_json("/lol-lobby/v2/lobby")
    }

    /// Asks for the ready check.
    pub fn get_ready_check(&self) -> (r: Request)
        ensures
            r@ == bare_request(Method::Get, "/lol-matchmaking/v1/ready-check"@),
    {
        self.get_json("/lol-matchmaking/v1/ready-check")
    }

    /// Accepts the match.
    pub fn accept_ready_check(&self) -> (r: Request)
        ensures
            r@ == bare_request(Method::Post, "/lol-matchmaking/v1/ready-check/accept"@),
    {
        self.post_json("/lol-matchmaking/v1/ready-check/accept", None)
    }

    /// Declines the match.
    pub fn decline_ready_check(&self) -> (r: Request)
        ensures
            r@ == bare_request(Method::Post, "/lol-matchmaking/v1/ready-check/decline"@),
    {
        self.post_json("/lol-matchmaking/v1/ready-check/decline", None)
    }

    /// Dismisses the statistics after a game; `end_of_game_stats_dismissed` reads the
    /// answer.
    pub fn dismiss_end_of_game_stats(&self) -> (r: Request)
        ensures
            r@ == bare_request(Method::Post, "/lol-end-of-game/v1/state/dismiss-stats"@),
    {
        self.post_json("/lol-end-of-game/v1/state/dismiss-stats", None)
    }

    /// Whether the statistics were dismissed.
    pub fn end_of_game_stats_dismissed(answer: Result<Json, LcuApiError>) -> (r: Result<
        bool,
        LcuApiError,
    >)
        ensures
            plain_result(r) == dismissed(json_result(answer)),
    {
        match answer {
            Ok(_) => Ok(true),
            Err(e) => if e.is_http() {
                Ok(false)
            } else {
                Err(e)
            },
        }
    }
}

} // verus!
