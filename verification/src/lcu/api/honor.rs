//! Skipping the honor vote.
//!
//! The client has changed how a vote is skipped more than once, so several ways are
//! tried, one after the other, until one is accepted.

use crate::json::{empty_object, whole_view, Json, JsonView};
use crate::lcu::api::{
    bare_request, json_result, plain_result, ErrorView, LcuApiError, LcuClient, Method, Request,
    RequestView,
};
use vstd::prelude::*;

verus! {

/// How far skipping the vote has come.
#[derive(Clone, Copy, Debug, PartialEq, Eq, Structural)]
pub enum HonorSkip {
    /// The ballot was asked for.
    Ballot,
    /// A vote that honors nobody was sent, in the given one of three forms.
    Vote { game_id: i64, form: u8 },
    /// Skipping was asked for, at the given one of two endpoints.
    Skip { endpoint: u8 },
}

/// What follows an answer.
pub enum HonorNext {
    /// Another request.
    Send(HonorSkip),
    /// The end: whether the vote was skipped.
    Done(Result<bool, LcuApiError>),
}

/// What a `HonorNext` holds.
pub enum HonorNextView {
    Send(HonorSkip),
    Done(Result<bool, ErrorView>),
}

impl View for HonorNext {
    type V = HonorNextView;

    open spec fn view(&self) -> HonorNextView {
        match self {
            HonorNext::Send(s) => HonorNextView::Send(*s),
            HonorNext::Done(r) => HonorNextView::Done(plain_result(*r)),
        }
    }
}

/// There are three forms of a vote and two endpoints for skipping.
pub open spec fn known_step(s: HonorSkip) -> bool {
    match s {
        HonorSkip::Ballot => true,
        HonorSkip::Vote { form, .. } => form < 3,
        HonorSkip::Skip { endpoint } => endpoint < 2,
    }
}

/// The body of a vote that honors nobody.
pub open spec fn vote_body(game_id: int, form: u8) -> JsonView {
    let body = empty_object().with("gameId"@, whole_view(game_id));
    let body = if form == 0 {
        body.with("honorCategory"@, JsonView::Str("OPT_OUT"@))
    } else if form == 1 {
        body.with("honorCategory"@, JsonView::Str("NONE"@))
    } else {
        body.with("honorType"@, JsonView::Str("OPT_OUT"@))
    };
    body.with("summonerId"@, whole_view(0))
}

/// The request of a step.
pub open spec fn step_request(s: HonorSkip) -> RequestView {
    match s {
        HonorSkip::Ballot => bare_request(Method::Get, "/lol-honor-v2/v1/ballot"@),
        HonorSkip::Vote { game_id, form } => RequestView {
            method: Method::Post,
            endpoint: "/lol-honor-v2/v1/honor-player"@,
            body: Some(vote_body(game_id as int, form)),
        },
        HonorSkip::Skip { endpoint } => bare_request(
            Method::Post,
            if endpoint == 0 {
                "/lol-honor-v2/v1/ballot/skip"@
            } else {
                "/lol-honor-v2/v1/skip"@
            },
        ),
    }
}

/// What is tried after a step that the client refused.
pub open spec fn after_refusal(s: HonorSkip) -> HonorNextView {
    match s {
        HonorSkip::Ballot => HonorNextView::Done(Ok(false)),
        HonorSkip::Vote { game_id, form } => if form < 2 {
            HonorNextView::Send(HonorSkip::Vote { game_id, form: (form + 1) as u8 })
        } else {
            HonorNextView::Send(HonorSkip::Skip { endpoint: 0 })
        },
        HonorSkip::Skip { endpoint } => if endpoint == 0 {
            HonorNextView::Send(HonorSkip::Skip { endpoint: 1 })
        } else {
            HonorNextView::Done(Ok(false))
        },
    }
}

/// What follows the answer to a step. The ballot says which game the vote is for; without
/// a game only skipping is tried, and without a ballot nothing is. After that, whatever
/// the client accepts ends the matter, an error status leads to the next attempt, and
/// any other error ends it as a failure.
pub open spec fn honor_after(s: HonorSkip, answer: Result<JsonView, ErrorView>) -> HonorNextView {
    match s {
        HonorSkip::Ballot => match answer {
            Ok(ballot) => match ballot.integer_field("gameId"@) {
                Some(game_id) => HonorNextView::Send(HonorSkip::Vote { game_id, form: 0 }),
                None => HonorNextView::Send(HonorSkip::Skip { endpoint: 0 }),
            },
            Err(_) => HonorNextView::Done(Ok(false)),
        },
        _ => match answer {
            Ok(_) => HonorNextView::Done(Ok(true)),
            Err(e) => if e is Http {
                after_refusal(s)
            } else {
                HonorNextView::Done(Err(e))
            },
        },
    }
}

impl LcuClient {
    /// Asks for the ballot.
    pub fn get_honor_ballot(&self) -> (r: Request)
        ensures
            r@ == bare_request(Method::Get, "/lol-honor-v2/v1/ballot"@),
    {
        self.get_json("/lol-honor-v2/v1/ballot")
    }

    /// Begins to skip the vote.
    pub fn skip_honor_vote() -> (r: HonorSkip)
        ensures
            r is Ballot,
            known_step(r),
    {
        HonorSkip::Ballot
    }
}

impl HonorSkip {
    /// The request of the step.
    pub fn request(self) -> (r: Request)
        ensures
            r@ == step_request(self),
    {
        match self {
            HonorSkip::Ballot => Request {
                method: Method::Get,
                endpoint: "/lol-honor-v2/v1/ballot".to_owned(),
                body: None,
            },
            HonorSkip::Vote { game_id, form } => {
                let body = Json::object().with("gameId", Json::whole(game_id));
                let body = if form == 0 {
                    body.with("honorCategory", Json::string("OPT_OUT"))
                } else if form == 1 {
                    body.with("honorCategory", Json::string("NONE"))
                } else {
                    body.with("honorType", Json::string("OPT_OUT"))
                };
                Request {
                    method: Method::Post,
                    endpoint: "/lol-honor-v2/v1/honor-player".to_owned(),
                    body: Some(body.with("summonerId", Json::whole(0))),
                }
            },
            HonorSkip::Skip { endpoint } => Request {
                method: Method::Post,
                endpoint: if endpoint == 0 {
                    "/lol-honor-v2/v1/ballot/skip".to_owned()
                } else {
                    "/lol-honor-v2/v1/skip".to_owned()
                },
                body: None,
            },
        }
    }

    /// What follows the client's answer.
    pub fn next(self, answer: Result<Json, LcuApiError>) -> (r: HonorNext)
        requires
            known_step(self),
        ensures
            r@ == honor_after(self, json_result(answer)),
            r matches HonorNext::Send(s) ==> known_step(s),
    {
        match self {
            HonorSkip::Ballot => match answer {
                Ok(ballot) => match ballot.get_i64("gameId") {
                    Some(game_id) => HonorNext::Send(HonorSkip::Vote { game_id, form: 0 }),
                    None => HonorNext::Send(HonorSkip::Skip { endpoint: 0 }),
                },
                Err(_) => HonorNext::Done(Ok(false)),
            },
            HonorSkip::Vote { game_id, form } => match answer {
                Ok(_) => HonorNext::Done(Ok(true)),
                Err(e) => if !e.is_http() {
                    HonorNext::Done(Err(e))
                } else if form < 2 {
                    HonorNext::Send(HonorSkip::Vote { game_id, form: form + 1 })
                } else {
                    HonorNext::Send(HonorSkip::Skip { endpoint: 0 })
                },
            },
            HonorSkip::Skip { endpoint } => match answer {
                Ok(_) => HonorNext::Done(Ok(true)),
                Err(e) => if !e.is_http() {
                    HonorNext::Done(Err(e))
                } else if endpoint == 0 {
                    HonorNext::Send(HonorSkip::Skip { endpoint: 1 })
                } else {
                    HonorNext::Done(Ok(false))
                },
            },
        }
    }
}

/// How many steps may still follow a step.
pub open spec fn steps_left(s: HonorSkip) -> int {
    match s {
        HonorSkip::Ballot => 5,
        HonorSkip::Vote { form, .. } => 4 - form,
        HonorSkip::Skip { endpoint } => 1 - endpoint,
    }
}

/// Skipping the vote ends: after the ballot at most five requests are sent.
pub proof fn law_honor_skip_ends(s: HonorSkip, answer: Result<JsonView, ErrorView>)
    requires
        known_step(s),
    ensures
        0 <= steps_left(s) <= 5,
        match honor_after(s, answer) {
            HonorNextView::Send(t) => known_step(t) && steps_left(t) < steps_left(s),
            HonorNextView::Done(_) => true,
        },
{
}

/// The vote counts as skipped exactly where the client accepted a request other than the
/// one for the ballot; where it refused all of them, skipping ends without an error.
pub proof fn law_skipped_means_accepted(s: HonorSkip, answer: Result<JsonView, ErrorView>)
    ensures
        honor_after(s, answer) == HonorNextView::Done(Ok(true)) <==> !(s is Ballot) && answer is Ok,
        answer is Err && answer->Err_0 is Http && honor_after(s, answer) is Done ==> honor_after(
            s,
            answer,
        ) == HonorNextView::Done(Ok(false)),
{
}

} // verus!
