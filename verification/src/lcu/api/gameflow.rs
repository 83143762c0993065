//! The phases of the game flow, and requests on the state of the client.

use crate::json::{Json, JsonView, Number};
use crate::lcu::api::{
    bare_request, json_result, text_result, ErrorView, LcuApiError, LcuClient, Method, Request,
};
use vstd::prelude::*;

verus! {

pub const NONE: &'static str = "None";

pub const LOBBY: &'static str = "Lobby";

pub const MATCHMAKING: &'static str = "Matchmaking";

pub const READY_CHECK: &'static str = "ReadyCheck";

pub const CHAMP_SELECT: &'static str = "ChampSelect";

pub const GAME_START: &'static str = "GameStart";

pub const IN_PROGRESS: &'static str = "InProgress";

pub const RECONNECT: &'static str = "Reconnect";

pub const WAITING_FOR_STATS: &'static str = "WaitingForStats";

pub const PRE_END_OF_GAME: &'static str = "PreEndOfGame";

pub const END_OF_GAME: &'static str = "EndOfGame";

pub const TERMINATED_IN_ERROR: &'static str = "TerminatedInError";

/// The phase in the client's answer; anything but a string stands for no phase.
pub open spec fn phase_in(answer: Result<JsonView, ErrorView>) -> Result<Seq<char>, ErrorView> {
    match answer {
        Ok(v) => Ok(
            match v.text() {
                Some(s) => s,
                None => "None"@,
            },
        ),
        Err(e) => Err(e),
    }
}

impl LcuClient {
    /// Asks for the phase of the game flow; `gameflow_phase` reads the answer.
    pub fn get_gameflow_phase(&self) -> (r: Request)
        ensures
            r@ == bare_request(Method::Get, "/lol-gameflow/v1/gameflow-phase"@),
    {
        self.get_json("/lol-gameflow/v1/gameflow-phase")
    }

    /// The phase in the client's answer.
    pub fn gameflow_phase(answer: Result<Json, LcuApiError>) -> (r: Result<String, LcuApiError>)
        ensures
            text_result(r) == phase_in(json_result(answer)),
    {
        match answer {
            Ok(v) => match v.as_str() {
                Some(s) => Ok(s.to_owned()),
                None => Ok("None".to_owned()),
            },
            Err(e) => Err(e),
        }
    }

    /// Asks for the session of the game flow.
    pub fn get_gameflow_session(&self) -> (r: Request)
        ensures
            r@ == bare_request(Method::Get, "/lol-gameflow/v1/session"@),
    {
        self.get_json("/lol-gameflow/v1/session")
    }

    /// Asks for the zoom factor of the client's window; `riotclient_zoom_scale` reads the
    /// answer.
    pub fn get_riotclient_zoom_scale(&self) -> (r: Request)
        ensures
            r@ == bare_request(Method::Get, "/riotclient/zoom-scale"@),
    {
        self.get_json("/riotclient/zoom-scale")
    }

    /// The zoom factor in the client's answer, which has to be a number; `shown` is the
    /// answer as an error shows it.
    pub fn riotclient_zoom_scale(answer: Result<Json, LcuApiError>, shown: &str) -> (r: Result<
        Number,
        LcuApiError,
    >)
        ensures
            answer matches Ok(v) ==> match v {
                Json::Number(n) => r == Ok::<Number, LcuApiError>(n),
                _ => r is Err && r->Err_0@ == ErrorView::Other(
                    "无效的 zoom-scale 响应: "@ + shown@,
                ),
            },
            answer matches Err(e) ==> r is Err && r->Err_0@ == e@,
    {
        match answer {
            Ok(Json::Number(n)) => Ok(n),
            Ok(_) => Err(
                LcuApiError::Other(crate::text::concat("无效的 zoom-scale 响应: ", shown)),
            ),
            Err(e) => Err(e),
        }
    }

    /// Restarts the client's interface, without leaving the queue or the game.
    pub fn reload_ux(&self) -> (r: Request)
        ensures
            r@ == bare_request(Method::Post, "/riotclient/kill-and-restart-ux"@),
    {
        self.post_json("/riotclient/kill-and-restart-ux", None)
    }
}

} // verus!
