//! Match histories: the client's own first, then those of the servers behind it.

use crate::json::{array_view, empty_object, json_parse, lemma_array_view, parse, Json, JsonView};
use crate::lcu::api::{
    bare_request, json_result, text_result, Answer, AnswerView, ErrorView, LcuApiError, LcuClient,
    Method, Request, RequestView,
};
use crate::text::{
    concat, contains, decimal, decimal_int, has_infix, i64_text, lowercase, lowercase_of, u64_text,
};
use vstd::prelude::*;

verus! {

// ---------------------------------------------------------------------------
// The games of a history
// ---------------------------------------------------------------------------

/// The list of games in a history: its member `games`, or the member `games` of that.
pub open spec fn games_in(v: JsonView) -> Option<Seq<JsonView>> {
    match v.field("games"@) {
        Some(g) => if g is Array {
            g.items()
        } else {
            g.items_field("games"@)
        },
        None => None,
    }
}

/// Whether a history holds any games.
pub open spec fn history_valid(v: JsonView) -> bool {
    match games_in(v) {
        Some(games) => games.len() > 0,
        None => false,
    }
}

/// The list of games in a history.
pub fn history_games(v: &Json) -> (r: Option<&Vec<Json>>)
    ensures
        r is Some <==> games_in(v@) is Some,
        r matches Some(games) ==> games_in(v@) == Some(array_view(games@)),
{
    match v.get("games") {
        Some(g) => if g.is_array() {
            g.as_array()
        } else {
            g.get_array("games")
        },
        None => None,
    }
}

/// A list of games as the client wraps it.
pub open spec fn wrapped_games(games: JsonView) -> JsonView {
    empty_object().with("games"@, empty_object().with("games"@, games))
}

/// A history of the servers in the form that the client gives its own: a bare list and a
/// list in a member `games` are wrapped, and so is a single game.
pub open spec fn adapted(v: JsonView) -> JsonView {
    if v is Array {
        wrapped_games(v)
    } else {
        match v.field("games"@) {
            Some(games) => if games is Array {
                wrapped_games(games)
            } else {
                v
            },
            None => wrapped_games(JsonView::Array(seq![v])),
        }
    }
}

fn wrap_games(games: Json) -> (r: Json)
    ensures
        r@ == wrapped_games(games@),
{
    Json::object().with("games", Json::object().with("games", games))
}

/// Brings a history of the servers into the form that the client gives its own.
pub fn adapt_history(v: Json) -> (r: Json)
    ensures
        r@ == adapted(v@),
{
    if v.is_array() {
        return wrap_games(v);
    }
    match v.get("games") {
        Some(games) => {
            if games.is_array() {
                return wrap_games(games.copy());
            }
        },
        None => {
            return wrap_games(Json::array1(v));
        },
    }
    v
}

// ---------------------------------------------------------------------------
// Where to ask
// ---------------------------------------------------------------------------

/// The number before `count`, or zero.
pub open spec fn last_index(count: nat) -> nat {
    if count == 0 {
        0
    } else {
        (count - 1) as nat
    }
}

/// The endpoint of the client for a player's latest games.
pub open spec fn history_endpoint(puuid: Seq<char>, count: nat) -> Seq<char> {
    "/lol-match-history/v1/products/lol/"@ + puuid + "/matches?begIndex=0&endIndex="@ + decimal(
        last_index(count),
    )
}

/// Whether a region, in lower case, is one of the Chinese servers.
pub open spec fn is_chinese(region: Seq<char>) -> bool {
    has_infix(region, "hn"@) || has_infix(region, "tj"@) || has_infix(region, "sh"@) || has_infix(
        region,
        "gz"@,
    )
}

/// The address of the servers for a player's latest games.
pub open spec fn sgp_url(region: Seq<char>, puuid: Seq<char>, count: nat) -> Seq<char> {
    if is_chinese(region) {
        "https://bgp.pallas.penta.qq.com/sgp/shno/v1/products/lol/player-history/v1/products/lol/"@
            + puuid + "/matches?begIndex=0&endIndex="@ + decimal(last_index(count))
    } else {
        "https://sgp.pvp.net/match-history-query/v1/products/lol/player/"@ + puuid
            + "/SUMMARY?count="@ + decimal(count)
    }
}

fn count_text(n: usize) -> (r: String)
    ensures
        r@ == decimal(n as nat),
{
    u64_text(n as u64)
}

/// The address of the servers for a player's latest games, in a region in lower case.
pub fn sgp_address(region: &str, puuid: &str, count: usize) -> (r: String)
    ensures
        r@ == sgp_url(region@, puuid@, count as nat),
{
    if contains(region, "hn") || contains(region, "tj") || contains(region, "sh") || contains(
        region,
        "gz",
    ) {
        let mut r = concat(
            "https://bgp.pallas.penta.qq.com/sgp/shno/v1/products/lol/player-history/v1/products/lol/",
            puuid,
        );
        r.append("/matches?begIndex=0&endIndex=");
        r.append(count_text(count.saturating_sub(1)).as_str());
        r
    } else {
        let mut r = concat(
            "https://sgp.pvp.net/match-history-query/v1/products/lol/player/",
            puuid,
        );
        r.append("/SUMMARY?count=");
        r.append(count_text(count).as_str());
        r
    }
}

/// The region, in lower case, in the client's answer on its locale. Where there is none
/// it is taken to be `hn1`.
pub open spec fn region_in(answer: Result<JsonView, ErrorView>) -> Seq<char> {
    match answer {
        Ok(v) => match v.text_field("region"@) {
            Some(s) => lowercase_of(s),
            None => "hn1"@,
        },
        Err(_) => "hn1"@,
    }
}

/// The region in the client's answer on its locale, in lower case.
pub fn region_of(answer: &Result<Json, LcuApiError>) -> (r: String)
    ensures
        r@ == region_in(json_result(*answer)),
{
    match answer {
        Ok(v) => match v.get_str("region") {
            Some(s) => lowercase(s),
            None => "hn1".to_owned(),
        },
        Err(_) => "hn1".to_owned(),
    }
}

/// A text member of an answer, or an error with the given words.
pub open spec fn text_or_error(
    answer: Result<JsonView, ErrorView>,
    name: Seq<char>,
    complaint: Seq<char>,
) -> Result<Seq<char>, ErrorView> {
    match answer {
        Ok(v) => match v.text_field(name) {
            Some(s) => Ok(s),
            None => Err(ErrorView::Other(complaint)),
        },
        Err(e) => Err(e),
    }
}

/// Takes a text member from an answer.
pub fn take_text(answer: Result<Json, LcuApiError>, name: &str, complaint: &str) -> (r: Result<
    String,
    LcuApiError,
>)
    ensures
        text_result(r) == text_or_error(json_result(answer), name@, complaint@),
{
    match answer {
        Ok(v) => match v.get_str(name) {
            Some(s) => Ok(s.to_owned()),
            None => Err(LcuApiError::Other(complaint.to_owned())),
        },
        Err(e) => Err(e),
    }
}

impl LcuClient {
    /// Asks for the details of a game.
    pub fn get_game(&self, game_id: i64) -> (r: Request)
        ensures
            r@ == bare_request(
                Method::Get,
                "/lol-match-history/v1/games/"@ + decimal_int(game_id as int),
            ),
    {
        let endpoint = concat("/lol-match-history/v1/games/", i64_text(game_id).as_str());
        self.get_json(endpoint.as_str())
    }

    /// Asks for the entitlements token; `entitlements_token` reads the answer.
    pub fn get_entitlements_token(&self) -> (r: Request)
        ensures
            r@ == bare_request(Method::Get, "/lol-entitlements/v1/token"@),
    {
        self.get_json("/lol-entitlements/v1/token")
    }

    /// The entitlements token in the client's answer.
    pub fn entitlements_token(answer: Result<Json, LcuApiError>) -> (r: Result<
        String,
        LcuApiError,
    >)
        ensures
            text_result(r) == text_or_error(
                json_result(answer),
                "accessToken"@,
                "未找到 entitlements token"@,
            ),
    {
        take_text(answer, "accessToken", "未找到 entitlements token")
    }

    /// Asks for the access token; `access_token` reads the answer.
    pub fn get_access_token(&self) -> (r: Request)
        ensures
            r@ == bare_request(Method::Get, "/lol-rso-auth/v1/authorization/access-token"@),
    {
        self.get_json("/lol-rso-auth/v1/authorization/access-token")
    }

    /// The access token in the client's answer.
    pub fn access_token(answer: Result<Json, LcuApiError>) -> (r: Result<String, LcuApiError>)
        ensures
            text_result(r) == text_or_error(
                json_result(answer),
                "token"@,
                "未找到 access token"@,
            ),
    {
        take_text(answer, "token", "未找到 access token")
    }

    /// Whether a history holds any games.
    pub fn is_match_history_valid(v: &Json) -> (r: bool)
        ensures
            r == history_valid(v@),
    {
        match history_games(v) {
            Some(games) => {
                proof {
                    lemma_array_view(games@);
                }
                games.len() > 0
            },
            None => false,
        }
    }
}

// ---------------------------------------------------------------------------
// Asking for a history
// ---------------------------------------------------------------------------

/// How often a history is asked for again where the client gave none.
pub const MAX_RETRIES: u32 = 2;

/// How long to wait before asking again, in milliseconds.
pub const RETRY_DELAY_MS: u64 = 600;

/// How the HTTP client puts it that a body could not be decoded.
pub const UNREADABLE_BODY: &'static str = "error decoding response body";

/// A call for a player's latest games, and how far it has come.
pub struct MatchHistoryCall {
    pub puuid: String,
    pub count: usize,
    pub stage: HistoryStage,
}

/// How far a call for a history has come.
pub enum HistoryStage {
    /// The client was asked, after so many attempts that gave nothing.
    Client { retries: u32 },
    /// The client gave nothing, and was asked for the access token.
    AccessToken { client: Result<Json, LcuApiError> },
    /// The client was asked for the entitlements token.
    Entitlements { client: Result<Json, LcuApiError>, access: String },
    /// The client was asked for its region.
    Region { client: Result<Json, LcuApiError>, access: String, entitlements: String },
    /// The servers were asked.
    Servers { client: Result<Json, LcuApiError>, url: String },
    /// The call is over.
    Finished,
}

/// A request to the servers: an address and two headers.
pub struct SgpRequest {
    pub url: String,
    pub authorization: String,
    pub entitlements: String,
}

/// What to do next for a history.
pub enum HistoryAction {
    /// Wait, then send a request to the client.
    Ask { after_ms: u64, request: Request },
    /// Send a request to the servers.
    Fetch(SgpRequest),
    /// Nothing: the call is over.
    Done(Result<Json, LcuApiError>),
}

/// What a `MatchHistoryCall` holds.
pub struct CallView {
    pub puuid: Seq<char>,
    pub count: nat,
    pub stage: StageView,
}

/// What a `HistoryStage` holds.
pub enum StageView {
    Client { retries: nat },
    AccessToken { client: Result<JsonView, ErrorView> },
    Entitlements { client: Result<JsonView, ErrorView>, access: Seq<char> },
    Region { client: Result<JsonView, ErrorView>, access: Seq<char>, entitlements: Seq<char> },
    Servers { client: Result<JsonView, ErrorView>, url: Seq<char> },
    Finished,
}

/// What a `HistoryAction` holds.
pub enum ActionView {
    Ask { after_ms: u64, request: RequestView },
    Fetch { url: Seq<char>, authorization: Seq<char>, entitlements: Seq<char> },
    Done(Result<JsonView, ErrorView>),
}

impl View for HistoryStage {
    type V = StageView;

    open spec fn view(&self) -> StageView {
        match self {
            HistoryStage::Client { retries } => StageView::Client { retries: *retries as nat },
            HistoryStage::AccessToken { client } => StageView::AccessToken {
                client: json_result(*client),
            },
            HistoryStage::Entitlements { client, access } => StageView::Entitlements {
                client: json_result(*client),
                access: access@,
            },
            HistoryStage::Region { client, access, entitlements } => StageView::Region {
                client: json_result(*client),
                access: access@,
                entitlements: entitlements@,
            },
            HistoryStage::Servers { client, url } => StageView::Servers {
                client: json_result(*client),
                url: url@,
            },
            HistoryStage::Finished => StageView::Finished,
        }
    }
}

impl View for MatchHistoryCall {
    type V = CallView;

    open spec fn view(&self) -> CallView {
        CallView { puuid: self.puuid@, count: self.count as nat, stage: self.stage@ }
    }
}

impl View for HistoryAction {
    type V = ActionView;

    open spec fn view(&self) -> ActionView {
        match self {
            HistoryAction::Ask { after_ms, request } => ActionView::Ask {
                after_ms: *after_ms,
                request: request@,
            },
            HistoryAction::Fetch(r) => ActionView::Fetch {
                url: r.url@,
                authorization: r.authorization@,
                entitlements: r.entitlements@,
            },
            HistoryAction::Done(r) => ActionView::Done(json_result(*r)),
        }
    }
}

impl CallView {
    /// The call at another stage.
    pub open spec fn at(self, stage: StageView) -> CallView {
        CallView { stage, ..self }
    }

    /// The request to the client for the history.
    pub open spec fn request(self) -> RequestView {
        bare_request(Method::Get, history_endpoint(self.puuid, self.count))
    }
}

/// A request to the client, to be sent at once.
pub open spec fn ask_now(endpoint: Seq<char>) -> ActionView {
    ActionView::Ask { after_ms: 0, request: bare_request(Method::Get, endpoint) }
}

/// What the servers' answer means: any status but success is an error, and so is a body
/// that is not JSON, which counts as a failure of the connection.
pub open spec fn servers_meaning(url: Seq<char>, answer: AnswerView) -> Result<
    JsonView,
    ErrorView,
> {
    match answer {
        AnswerView::Failed(m) => Err(ErrorView::Network(m)),
        AnswerView::Response { status, body } => if !(200 <= status < 300) {
            Err(
                ErrorView::Http {
                    status,
                    method: "GET (SGP)"@,
                    endpoint: url,
                    body: match body {
                        Ok(s) => s,
                        Err(_) => Seq::empty(),
                    },
                },
            )
        } else {
            match body {
                Ok(s) => match json_parse(s) {
                    Ok(v) => Ok(adapted(v)),
                    Err(_) => Err(ErrorView::Network(UNREADABLE_BODY@)),
                },
                Err(m) => Err(ErrorView::Network(m)),
            }
        },
    }
}

/// How a call goes on after an answer of the client. A history with games ends it. After
/// the last attempt the servers are asked, for which two tokens and the region are
/// needed; without the tokens the client's last answer stands.
pub open spec fn after_client(c: CallView, reply: Result<JsonView, ErrorView>) -> (
    CallView,
    ActionView,
) {
    match c.stage {
        StageView::Client { retries } => if reply is Ok && history_valid(reply->Ok_0) {
            (c.at(StageView::Finished), ActionView::Done(reply))
        } else if retries >= MAX_RETRIES {
            (
                c.at(StageView::AccessToken { client: reply }),
                ask_now("/lol-rso-auth/v1/authorization/access-token"@),
            )
        } else {
            (
                c.at(StageView::Client { retries: retries + 1 }),
                ActionView::Ask { after_ms: RETRY_DELAY_MS, request: c.request() },
            )
        },
        StageView::AccessToken { client } => match text_or_error(
            reply,
            "token"@,
            "未找到 access token"@,
        ) {
            Ok(access) => (
                c.at(StageView::Entitlements { client, access }),
                ask_now("/lol-entitlements/v1/token"@),
            ),
            Err(_) => (c.at(StageView::Finished), ActionView::Done(client)),
        },
        StageView::Entitlements { client, access } => match text_or_error(
            reply,
            "accessToken"@,
            "未找到 entitlements token"@,
        ) {
            Ok(entitlements) => (
                c.at(StageView::Region { client, access, entitlements }),
                ask_now("/riotclient/region-locale"@),
            ),
            Err(_) => (c.at(StageView::Finished), ActionView::Done(client)),
        },
        StageView::Region { client, access, entitlements } => {
            let url = sgp_url(region_in(reply), c.puuid, c.count);
            (
                c.at(StageView::Servers { client, url }),
                ActionView::Fetch { url, authorization: "Bearer "@ + access, entitlements },
            )
        },
        _ => (c, ActionView::Done(reply)),
    }
}

/// How a call ends after the servers' answer: with their history, or with the client's
/// last answer where they gave none.
pub open spec fn after_servers(c: CallView, answer: AnswerView) -> ActionView {
    match c.stage {
        StageView::Servers { client, url } => match servers_meaning(url, answer) {
            Ok(v) => ActionView::Done(Ok(v)),
            Err(_) => ActionView::Done(client),
        },
        _ => ActionView::Done(Err(ErrorView::Other(Seq::empty()))),
    }
}

fn history_request(puuid: &str, count: usize) -> (r: Request)
    ensures
        r@ == bare_request(Method::Get, history_endpoint(puuid@, count as nat)),
{
    let mut endpoint = concat("/lol-match-history/v1/products/lol/", puuid);
    endpoint.append("/matches?begIndex=0&endIndex=");
    endpoint.append(count_text(count.saturating_sub(1)).as_str());
    Request { method: Method::Get, endpoint, body: None }
}

fn ask(endpoint: &str) -> (r: HistoryAction)
    ensures
        r@ == ask_now(endpoint@),
{
    HistoryAction::Ask {
        after_ms: 0,
        request: Request { method: Method::Get, endpoint: endpoint.to_owned(), body: None },
    }
}

/// What the servers' answer means.
pub fn read_servers(url: &str, answer: Answer) -> (r: Result<Json, LcuApiError>)
    ensures
        json_result(r) == servers_meaning(url@, answer@),
{
    match answer {
        Answer::Failed(m) => Err(LcuApiError::Network(m)),
        Answer::Response { status, body } => {
            if status < 200 || status >= 300 {
                let text = match body {
                    Ok(s) => s,
                    Err(_) => String::new(),
                };
                return Err(
                    LcuApiError::Http {
                        status,
                        method: "GET (SGP)".to_owned(),
                        endpoint: url.to_owned(),
                        body: text,
                    },
                );
            }
            match body {
                Ok(s) => match parse(s.as_str()) {
                    Ok(v) => Ok(adapt_history(v)),
                    Err(_) => Err(LcuApiError::Network(UNREADABLE_BODY.to_owned())),
                },
                Err(m) => Err(LcuApiError::Network(m)),
            }
        },
    }
}

impl LcuClient {
    /// Begins a call for the latest games of a player.
    pub fn get_match_history(&self, puuid: &str, count: usize) -> (r: (
        MatchHistoryCall,
        HistoryAction,
    ))
        ensures
            r.0@ == (CallView {
                puuid: puuid@,
                count: count as nat,
                stage: StageView::Client { retries: 0 },
            }),
            r.1@ == (ActionView::Ask { after_ms: 0, request: r.0@.request() }),
    {
        let call = MatchHistoryCall {
            puuid: puuid.to_owned(),
            count,
            stage: HistoryStage::Client { retries: 0 },
        };
        (call, HistoryAction::Ask { after_ms: 0, request: history_request(puuid, count) })
    }
}

impl MatchHistoryCall {
    /// Goes on with the call after an answer of the client.
    pub fn resume(self, reply: Result<Json, LcuApiError>) -> (r: (MatchHistoryCall, HistoryAction))
        requires
            !(self.stage is Servers),
            !(self.stage is Finished),
        ensures
            (r.0@, r.1@) == after_client(self@, json_result(reply)),
    {
        let MatchHistoryCall { puuid, count, stage } = self;
        match stage {
            HistoryStage::Client { retries } => {
                let valid = match &reply {
                    Ok(v) => LcuClient::is_match_history_valid(v),
                    Err(_) => false,
                };
                if valid {
                    (
                        MatchHistoryCall { puuid, count, stage: HistoryStage::Finished },
                        HistoryAction::Done(reply),
                    )
                } else if retries >= MAX_RETRIES {
                    (
                        MatchHistoryCall {
                            puuid,
                            count,
                            stage: HistoryStage::AccessToken { client: reply },
                        },
                        ask("/lol-rso-auth/v1/authorization/access-token"),
                    )
                } else {
                    let request = history_request(puuid.as_str(), count);
                    (
                        MatchHistoryCall {
                            puuid,
                            count,
                            stage: HistoryStage::Client { retries: retries + 1 },
                        },
                        HistoryAction::Ask { after_ms: RETRY_DELAY_MS, request },
                    )
                }
            },
            HistoryStage::AccessToken { client } => {
                match LcuClient::access_token(reply) {
                    Ok(access) => (
                        MatchHistoryCall {
                            puuid,
                            count,
                            stage: HistoryStage::Entitlements { client, access },
                        },
                        ask("/lol-entitlements/v1/token"),
                    ),
                    Err(_) => (
                        MatchHistoryCall { puuid, count, stage: HistoryStage::Finished },
                        HistoryAction::Done(client),
                    ),
                }
            },
            HistoryStage::Entitlements { client, access } => {
                match LcuClient::entitlements_token(reply) {
                    Ok(entitlements) => (
                        MatchHistoryCall {
                            puuid,
                            count,
                            stage: HistoryStage::Region { client, access, entitlements },
                        },
                        ask("/riotclient/region-locale"),
                    ),
                    Err(_) => (
                        MatchHistoryCall { puuid, count, stage: HistoryStage::Finished },
                        HistoryAction::Done(client),
                    ),
                }
            },
            HistoryStage::Region { client, access, entitlements } => {
                let region = region_of(&reply);
                let url = sgp_address(region.as_str(), puuid.as_str(), count);
                let request = SgpRequest {
                    url: url.clone(),
                    authorization: concat("Bearer ", access.as_str()),
                    entitlements,
                };
                (
                    MatchHistoryCall {
                        puuid,
                        count,
                        stage: HistoryStage::Servers { client, url },
                    },
                    HistoryAction::Fetch(request),
                )
            },
            HistoryStage::Servers { client, url } => (
                MatchHistoryCall { puuid, count, stage: HistoryStage::Servers { client, url } },
                HistoryAction::Done(reply),
            ),
            HistoryStage::Finished => (
                MatchHistoryCall { puuid, count, stage: HistoryStage::Finished },
                HistoryAction::Done(reply),
            ),
        }
    }

    /// Ends the call after the servers' answer.
    pub fn resume_servers(self, answer: Answer) -> (r: HistoryAction)
        requires
            self.stage is Servers,
        ensures
            r@ == after_servers(self@, answer@),
    {
        match self.stage {
            HistoryStage::Servers { client, url } => {
                match read_servers(url.as_str(), answer) {
                    Ok(v) => HistoryAction::Done(Ok(v)),
                    Err(_) => HistoryAction::Done(client),
                }
            },
            _ => HistoryAction::Done(Err(LcuApiError::Other(String::new()))),
        }
    }
}

/// How many requests a call may still send from a stage on.
pub open spec fn requests_left(stage: StageView) -> int {
    match stage {
        StageView::Client { retries } => 4 + if retries < MAX_RETRIES {
            MAX_RETRIES - retries
        } else {
            0
        },
        StageView::AccessToken { .. } => 3,
        StageView::Entitlements { .. } => 2,
        StageView::Region { .. } => 1,
        StageView::Servers { .. } => 0,
        StageView::Finished => 0,
    }
}

/// A call for a history ends: every answer of the client either ends it or uses up one of
/// a bounded number of requests.
pub proof fn law_history_call_ends(c: CallView, reply: Result<JsonView, ErrorView>)
    requires
        !(c.stage is Servers),
        !(c.stage is Finished),
    ensures
        after_client(c, reply).1 is Done || requests_left(after_client(c, reply).0.stage)
            < requests_left(c.stage),
        0 <= requests_left(after_client(c, reply).0.stage) <= 6,
{
}

/// A history with games from the client is what the call gives, whichever attempt it was,
/// and the servers are asked only after the client gave none three times.
pub proof fn law_client_history_first(c: CallView, reply: Result<JsonView, ErrorView>)
    requires
        c.stage is Client,
    ensures
        reply is Ok && history_valid(reply->Ok_0) ==> after_client(c, reply).1
            == ActionView::Done(reply),
        after_client(c, reply).0.stage is AccessToken ==> c.stage->retries >= MAX_RETRIES && !(reply
            is Ok && history_valid(reply->Ok_0)),
{
}

/// What the servers give has a list of games, except where it already had the client's
/// form.
pub proof fn law_adapted_has_games(v: JsonView)
    ensures
        v is Array || v.field("games"@) is None || v.field("games"@)->0 is Array ==> games_in(
            adapted(v),
        ) is Some,
        adapted(adapted(v)) == adapted(v),
{
    let w = adapted(v);
    if v is Array {
        lemma_wrapped(v);
    } else {
        match v.field("games"@) {
            Some(games) => {
                if games is Array {
                    lemma_wrapped(games);
                }
            },
            None => {
                lemma_wrapped(JsonView::Array(seq![v]));
            },
        }
    }
}

pub proof fn lemma_wrapped(games: JsonView)
    ensures
        wrapped_games(games).field("games"@) == Some(empty_object().with("games"@, games)),
        games is Array ==> games_in(wrapped_games(games)) == games.items(),
{
}

} // verus!
