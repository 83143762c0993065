//! Requests to the client and what its answers mean.
//!
//! A method of `LcuClient` that asks the client for something returns the `Request`;
//! `LcuClient::answer` turns what came back into a JSON value or an error. Where one
//! call takes several requests, a type of its own holds how far it has come.

use crate::json::{parse, Json, JsonView};
use crate::lcu::connection::LcuCredentials;
use crate::text::{concat, contains, decimal, has_infix, u64_text};
use vstd::prelude::*;

pub mod champ_select;
pub mod chat;
pub mod gameflow;
pub mod honor;
pub mod lobby;
pub mod loot;
pub mod match_history;
pub mod summoner;

verus! {

// ---------------------------------------------------------------------------
// Errors
// ---------------------------------------------------------------------------

/// Why a call to the client failed.
#[derive(Debug)]
pub enum LcuApiError {
    /// The client answered with an error status.
    Http { status: u16, method: String, endpoint: String, body: String },
    /// The client did not answer.
    Network(String),
    /// The answer was not JSON.
    Json(String),
    /// The answer was not what was asked for.
    Other(String),
}

/// What an `LcuApiError` holds.
pub enum ErrorView {
    Http { status: u16, method: Seq<char>, endpoint: Seq<char>, body: Seq<char> },
    Network(Seq<char>),
    Json(Seq<char>),
    Other(Seq<char>),
}

impl View for LcuApiError {
    type V = ErrorView;

    open spec fn view(&self) -> ErrorView {
        match self {
            LcuApiError::Http { status, method, endpoint, body } => ErrorView::Http {
                status: *status,
                method: method@,
                endpoint: endpoint@,
                body: body@,
            },
            LcuApiError::Network(m) => ErrorView::Network(m@),
            LcuApiError::Json(m) => ErrorView::Json(m@),
            LcuApiError::Other(m) => ErrorView::Other(m@),
        }
    }
}

impl ErrorView {
    /// The error in words.
    pub open spec fn message(self) -> Seq<char> {
        match self {
            ErrorView::Http { status, method, endpoint, body } => "HTTP "@ + decimal(status as nat)
                + " "@ + method + " "@ + endpoint + ": "@ + body,
            ErrorView::Network(m) => "网络错误: "@ + m,
            ErrorView::Json(m) => "JSON 解析错误: "@ + m,
            ErrorView::Other(m) => m,
        }
    }
}

impl LcuApiError {
    /// The error in words.
    pub fn message(&self) -> (r: String)
        ensures
            r@ == self@.message(),
    {
        match self {
            LcuApiError::Http { status, method, endpoint, body } => {
                let mut r = concat("HTTP ", u64_text(*status as u64).as_str());
                r.append(" ");
                r.append(method.as_str());
                r.append(" ");
                r.append(endpoint.as_str());
                r.append(": ");
                r.append(body.as_str());
                r
            },
            LcuApiError::Network(m) => concat("网络错误: ", m.as_str()),
            LcuApiError::Json(m) => concat("JSON 解析错误: ", m.as_str()),
            LcuApiError::Other(m) => m.clone(),
        }
    }

    /// Whether the client answered, with an error status.
    pub fn is_http(&self) -> (r: bool)
        ensures
            r == (self@ is Http),
    {
        matches!(self, LcuApiError::Http { .. })
    }
}

/// The view of what a call for a JSON value came to.
pub open spec fn json_result(r: Result<Json, LcuApiError>) -> Result<JsonView, ErrorView> {
    match r {
        Ok(j) => Ok(j@),
        Err(e) => Err(e@),
    }
}

/// The view of what a call for a text came to.
pub open spec fn text_result(r: Result<String, LcuApiError>) -> Result<Seq<char>, ErrorView> {
    match r {
        Ok(s) => Ok(s@),
        Err(e) => Err(e@),
    }
}

/// The view of what a call for a plain value came to.
pub open spec fn plain_result<T>(r: Result<T, LcuApiError>) -> Result<T, ErrorView> {
    match r {
        Ok(v) => Ok(v),
        Err(e) => Err(e@),
    }
}

// ---------------------------------------------------------------------------
// Requests and answers
// ---------------------------------------------------------------------------

/// The method of a request.
#[derive(Clone, Copy, Debug, PartialEq, Eq, Structural)]
pub enum Method {
    Get,
    Post,
    Patch,
    Delete,
}

impl Method {
    /// The method's name on the wire.
    pub open spec fn verb_text(self) -> Seq<char> {
        match self {
            Method::Get => "GET"@,
            Method::Post => "POST"@,
            Method::Patch => "PATCH"@,
            Method::Delete => "DELETE"@,
        }
    }

    /// The method's name on the wire.
    pub fn verb(self) -> (r: &'static str)
        ensures
            r@ == self.verb_text(),
    {
        match self {
            Method::Get => "GET",
            Method::Post => "POST",
            Method::Patch => "PATCH",
            Method::Delete => "DELETE",
        }
    }
}

/// A request to the client.
#[derive(Debug)]
pub struct Request {
    pub method: Method,
    pub endpoint: String,
    pub body: Option<Json>,
}

/// What a `Request` holds.
pub struct RequestView {
    pub method: Method,
    pub endpoint: Seq<char>,
    pub body: Option<JsonView>,
}

impl View for Request {
    type V = RequestView;

    open spec fn view(&self) -> RequestView {
        RequestView {
            method: self.method,
            endpoint: self.endpoint@,
            body: match self.body {
                Some(j) => Some(j@),
                None => None,
            },
        }
    }
}

/// A request without a body.
pub open spec fn bare_request(method: Method, endpoint: Seq<char>) -> RequestView {
    RequestView { method, endpoint, body: None }
}

/// What came back from the client.
pub enum Answer {
    /// Nothing did, with the reason.
    Failed(String),
    /// A status, and the body, or the reason why it could not be read.
    Response { status: u16, body: Result<String, String> },
}

/// What an `Answer` holds.
pub enum AnswerView {
    Failed(Seq<char>),
    Response { status: u16, body: Result<Seq<char>, Seq<char>> },
}

impl View for Answer {
    type V = AnswerView;

    open spec fn view(&self) -> AnswerView {
        match self {
            Answer::Failed(m) => AnswerView::Failed(m@),
            Answer::Response { status, body } => AnswerView::Response {
                status: *status,
                body: match body {
                    Ok(s) => Ok(s@),
                    Err(m) => Err(m@),
                },
            },
        }
    }
}

/// What the body of an answer means: nothing at all is null, anything else is JSON
/// text.
pub open spec fn body_meaning(text: Seq<char>) -> Result<JsonView, ErrorView> {
    if text.len() == 0 {
        Ok(JsonView::Null)
    } else {
        match crate::json::json_parse(text) {
            Ok(v) => Ok(v),
            Err(m) => Err(ErrorView::Json(m)),
        }
    }
}

/// What an answer to a request means. A status of 400 and above is an error.
pub open spec fn answer_meaning(req: RequestView, answer: AnswerView) -> Result<
    JsonView,
    ErrorView,
> {
    match answer {
        AnswerView::Failed(m) => Err(ErrorView::Network(m)),
        AnswerView::Response { status, body } => if status >= 400 {
            Err(
                ErrorView::Http {
                    status,
                    method: req.method.verb_text(),
                    endpoint: req.endpoint,
                    body: match body {
                        Ok(s) => s,
                        Err(_) => Seq::empty(),
                    },
                },
            )
        } else {
            match body {
                Ok(s) => body_meaning(s),
                Err(m) => Err(ErrorView::Network(m)),
            }
        },
    }
}

/// How many requests for the game's assets may be under way at once.
pub const ASSET_REQUEST_LIMIT: usize = 8;

/// The client of the game client's interface.
#[derive(Debug)]
pub struct LcuClient {
    pub base_url: String,
}

impl View for LcuClient {
    type V = Seq<char>;

    open spec fn view(&self) -> Seq<char> {
        self.base_url@
    }
}

impl LcuClient {
    /// The client that listens on the port of the credentials.
    pub fn new(creds: &LcuCredentials) -> (r: Self)
        ensures
            r@ == "https://127.0.0.1:"@ + decimal(creds.port as nat),
    {
        LcuClient {
            base_url: concat("https://127.0.0.1:", u64_text(creds.port as u64).as_str()),
        }
    }

    /// A copy of the client.
    pub fn copy(&self) -> (r: Self)
        ensures
            r@ == self@,
    {
        LcuClient { base_url: self.base_url.clone() }
    }

    /// The address of an endpoint.
    pub fn url(&self, endpoint: &str) -> (r: String)
        ensures
            r@ == self@ + endpoint@,
    {
        concat(self.base_url.as_str(), endpoint)
    }

    /// A request to read.
    pub fn get_json(&self, endpoint: &str) -> (r: Request)
        ensures
            r@ == bare_request(Method::Get, endpoint@),
    {
        Request { method: Method::Get, endpoint: endpoint.to_owned(), body: None }
    }

    /// A request to post, with a body or without.
    pub fn post_json(&self, endpoint: &str, body: Option<Json>) -> (r: Request)
        ensures
            r@.method == Method::Post,
            r@.endpoint == endpoint@,
            r@.body == match body {
                Some(j) => Some(j@),
                None => None,
            },
    {
        Request { method: Method::Post, endpoint: endpoint.to_owned(), body }
    }

    /// A request to patch.
    pub fn patch_json(&self, endpoint: &str, body: Json) -> (r: Request)
        ensures
            r@ == (RequestView {
                method: Method::Patch,
                endpoint: endpoint@,
                body: Some(body@),
            }),
    {
        Request { method: Method::Patch, endpoint: endpoint.to_owned(), body: Some(body) }
    }

    /// A request to delete.
    pub fn delete_json(&self, endpoint: &str) -> (r: Request)
        ensures
            r@ == bare_request(Method::Delete, endpoint@),
    {
        Request { method: Method::Delete, endpoint: endpoint.to_owned(), body: None }
    }

    /// Whether a request reads the game's assets: of those only `ASSET_REQUEST_LIMIT` may be
    /// under way at once.
    pub fn is_asset_request(request: &Request) -> (r: bool)
        ensures
            r == (request.method is Get && has_infix(request.endpoint@, "lol-game-data/assets"@)),
    {
        match request.method {
            Method::Get => contains(request.endpoint.as_str(), "lol-game-data/assets"),
            _ => false,
        }
    }

    /// The error for an answer with a status of 400 and above.
    pub fn check_status(
        status: u16,
        method: &str,
        endpoint: &str,
        body: Result<String, String>,
    ) -> (r: Result<Result<String, String>, LcuApiError>)
        ensures
            status < 400 ==> r == Ok::<Result<String, String>, LcuApiError>(body),
            status >= 400 ==> r is Err && r->Err_0@ == (ErrorView::Http {
                status,
                method: method@,
                endpoint: endpoint@,
                body: match body {
                    Ok(s) => s@,
                    Err(_) => Seq::empty(),
                },
            }),
    {
        if status >= 400 {
            let text = match body {
                Ok(s) => s,
                Err(_) => String::new(),
            };
            return Err(
                LcuApiError::Http {
                    status,
                    method: method.to_owned(),
                    endpoint: endpoint.to_owned(),
                    body: text,
                },
            );
        }
        Ok(body)
    }

    /// Reads the body of an answer: JSON text, or nothing at all for null.
    pub fn json_or_null(text: &str) -> (r: Result<Json, LcuApiError>)
        ensures
            json_result(r) == body_meaning(text@),
    {
        if text.unicode_len() == 0 {
            return Ok(Json::Null);
        }
        match parse(text) {
            Ok(v) => Ok(v),
            Err(m) => Err(LcuApiError::Json(m)),
        }
    }

    /// What an answer to a request means.
    pub fn answer(req: &Request, answer: Answer) -> (r: Result<Json, LcuApiError>)
        ensures
            json_result(r) == answer_meaning(req@, answer@),
    {
        match answer {
            Answer::Failed(m) => Err(LcuApiError::Network(m)),
            Answer::Response { status, body } => {
                match Self::check_status(status, req.method.verb(), req.endpoint.as_str(), body) {
                    Err(e) => Err(e),
                    Ok(Err(m)) => Err(LcuApiError::Network(m)),
                    Ok(Ok(text)) => Self::json_or_null(text.as_str()),
                }
            },
        }
    }
}

} // verus!
