//! What a call for a history comes to.

use crate::json::{json_parse, JsonView};
use crate::lcu::api::{bare_request, AnswerView, ErrorView, Method};
use crate::lcu::api::match_history::{
    after_client, after_servers, games_in, lemma_wrapped, region_in, servers_meaning, sgp_url,
    ActionView, CallView, StageView,
};
use crate::text::{decimal, has_infix, lowercase_of};
use vstd::prelude::*;

verus! {

/// The value is a history with these games, in either of the two forms of the client.
pub open spec fn holds_games(v: JsonView, games: Seq<JsonView>) -> bool {
    v.field("games"@) == Some(JsonView::Array(games)) || (v.field("games"@) matches Some(g)
        && g.field("games"@) == Some(JsonView::Array(games)))
}

/// A history with games from the client ends the call, and is what the call gives.
pub proof fn law_history_with_games_is_given(
    c: CallView,
    retries: nat,
    v: JsonView,
    games: Seq<JsonView>,
)
    requires
        c.stage == (StageView::Client { retries }),
        holds_games(v, games),
        games.len() > 0,
    ensures
        after_client(c, Ok(v)).1 == ActionView::Done(Ok(v)),
        games_in(v) == Some(games),
{
}

/// The reply holds no game: it is an error, or a value in which no list of games has any.
pub open spec fn holds_nothing(reply: Result<JsonView, ErrorView>) -> bool {
    reply matches Ok(v) ==> forall|games: Seq<JsonView>|
        holds_games(v, games) ==> games.len() == 0
}

/// Where the client gives no games it is asked again for the same, after 600 milliseconds,
/// twice; after the third reply the access token is asked for, and that reply is kept.
pub proof fn law_client_is_asked_three_times(
    c: CallView,
    retries: nat,
    reply: Result<JsonView, ErrorView>,
)
    requires
        c.stage == (StageView::Client { retries }),
        holds_nothing(reply),
    ensures
        retries < 2 ==> after_client(c, reply).0.stage == (StageView::Client {
            retries: retries + 1,
        }) && after_client(c, reply).1 == (ActionView::Ask {
            after_ms: 600,
            request: bare_request(
                Method::Get,
                "/lol-match-history/v1/products/lol/"@ + c.puuid + "/matches?begIndex=0&endIndex="@
                    + decimal(
                    if c.count > 0 {
                        (c.count - 1) as nat
                    } else {
                        0
                    },
                ),
            ),
        }),
        retries >= 2 ==> after_client(c, reply).0.stage == (StageView::AccessToken {
            client: reply,
        }) && after_client(c, reply).1 == (ActionView::Ask {
            after_ms: 0,
            request: bare_request(
                Method::Get,
                "/lol-rso-auth/v1/authorization/access-token"@,
            ),
        }),
        after_client(c, reply).0.puuid == c.puuid,
        after_client(c, reply).0.count == c.count,
{
    if reply is Ok && games_in(reply->Ok_0) is Some {
        assert(holds_games(reply->Ok_0, games_in(reply->Ok_0)->0));
    }
}

/// The two tokens are taken from the client's answers and shown to the servers; without
/// either of them the client's last reply is what the call gives.
pub proof fn law_tokens_are_shown_to_the_servers(
    c: CallView,
    client: Result<JsonView, ErrorView>,
    token: JsonView,
    access: Seq<char>,
    entitled: JsonView,
    entitlements: Seq<char>,
    region: Result<JsonView, ErrorView>,
)
    requires
        c.stage == (StageView::AccessToken { client }),
        token.field("token"@) == Some(JsonView::Str(access)),
        entitled.field("accessToken"@) == Some(JsonView::Str(entitlements)),
    ensures
        ({
            let (c1, a1) = after_client(c, Ok(token));
            let (c2, a2) = after_client(c1, Ok(entitled));
            let (c3, a3) = after_client(c2, region);
            let url = sgp_url(region_in(region), c.puuid, c.count);
            &&& a1 == (ActionView::Ask {
                after_ms: 0,
                request: bare_request(Method::Get, "/lol-entitlements/v1/token"@),
            })
            &&& a2 == (ActionView::Ask {
                after_ms: 0,
                request: bare_request(Method::Get, "/riotclient/region-locale"@),
            })
            &&& a3 == (ActionView::Fetch { url, authorization: "Bearer "@ + access, entitlements })
            &&& c3.stage == (StageView::Servers { client, url })
        }),
{
}

/// Without a token the client's last reply is what the call gives.
pub proof fn law_without_tokens_the_reply_stands(
    c: CallView,
    client: Result<JsonView, ErrorView>,
    access: Seq<char>,
    reply: Result<JsonView, ErrorView>,
)
    ensures
        c.stage == (StageView::AccessToken { client }) && (reply matches Ok(v) ==> !(v.field("token"@)
            matches Some(JsonView::Str(_)))) ==> after_client(c, reply).1 == ActionView::Done(client),
        c.stage == (StageView::Entitlements { client, access }) && (reply matches Ok(v) ==> !(
        v.field("accessToken"@) matches Some(JsonView::Str(_)))) ==> after_client(c, reply).1
            == ActionView::Done(client),
{
}

/// The Chinese servers are asked where the region, in lower case, holds `hn`, `tj`, `sh` or
/// `gz`, and where the region is not known; everywhere else the others.
pub proof fn law_region_decides_the_servers(
    region: Seq<char>,
    v: JsonView,
    e: ErrorView,
    puuid: Seq<char>,
    count: nat,
)
    ensures
        has_infix(region, "hn"@) || has_infix(region, "tj"@) || has_infix(region, "sh"@)
            || has_infix(region, "gz"@) ==> sgp_url(region, puuid, count)
            == "https://bgp.pallas.penta.qq.com/sgp/shno/v1/products/lol/player-history/v1/products/lol/"@
            + puuid + "/matches?begIndex=0&endIndex="@ + decimal(
            if count > 0 {
                (count - 1) as nat
            } else {
                0
            },
        ),
        !(has_infix(region, "hn"@) || has_infix(region, "tj"@) || has_infix(region, "sh"@)
            || has_infix(region, "gz"@)) ==> sgp_url(region, puuid, count)
            == "https://sgp.pvp.net/match-history-query/v1/products/lol/player/"@ + puuid
            + "/SUMMARY?count="@ + decimal(count),
        v.field("region"@) matches Some(JsonView::Str(name)) ==> region_in(Ok(v)) == lowercase_of(
            name,
        ),
        v.field("region"@) is None ==> region_in(Ok(v)) == "hn1"@,
        region_in(Err(e)) == "hn1"@,
{
}

/// A history of the servers is what the call gives: with the games that they listed, in the
/// client's form, whether they gave a bare list, a list under `games`, or a single game.
pub proof fn law_games_of_the_servers_are_given(
    c: CallView,
    client: Result<JsonView, ErrorView>,
    url: Seq<char>,
    status: u16,
    text: Seq<char>,
    v: JsonView,
    games: Seq<JsonView>,
)
    requires
        c.stage == (StageView::Servers { client, url }),
        200 <= status < 300,
        json_parse(text) == Ok::<JsonView, Seq<char>>(v),
        v == JsonView::Array(games) || v.field("games"@) == Some(JsonView::Array(games)) || (!(v
            is Array) && v.field("games"@) is None && games == seq![v]),
    ensures
        after_servers(c, AnswerView::Response { status, body: Ok(text) }) matches ActionView::Done(Ok(w))
            && games_in(w) == Some(games),
{
    lemma_wrapped(JsonView::Array(games));
}

/// Where the servers give no history, the client's last reply is what the call gives.
pub proof fn law_without_servers_the_reply_stands(
    c: CallView,
    client: Result<JsonView, ErrorView>,
    url: Seq<char>,
    status: u16,
    body: Result<Seq<char>, Seq<char>>,
    m: Seq<char>,
)
    requires
        c.stage == (StageView::Servers { client, url }),
        !(200 <= status < 300) || body is Err || json_parse(body->Ok_0) is Err,
    ensures
        after_servers(c, AnswerView::Response { status, body }) == ActionView::Done(client),
        after_servers(c, AnswerView::Failed(m)) == ActionView::Done(client),
{
}

/// What the servers refuse is an error with their status, the address and their answer; what
/// cannot be read is an error of the network, and so is a request that did not get through.
pub proof fn law_refusal_of_the_servers(url: Seq<char>, status: u16, body: Seq<char>, m: Seq<char>)
    ensures
        !(200 <= status < 300) ==> servers_meaning(
            url,
            AnswerView::Response { status, body: Ok(body) },
        ) == Err::<JsonView, ErrorView>(
            ErrorView::Http { status, method: "GET (SGP)"@, endpoint: url, body },
        ),
        200 <= status < 300 && json_parse(body) is Err ==> servers_meaning(
            url,
            AnswerView::Response { status, body: Ok(body) },
        ) == Err::<JsonView, ErrorView>(ErrorView::Network("error decoding response body"@)),
        servers_meaning(url, AnswerView::Failed(m)) == Err::<JsonView, ErrorView>(
            ErrorView::Network(m),
        ),
{
}

} // verus!
