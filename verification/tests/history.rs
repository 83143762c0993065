//! Asking for a player's latest games.

use lol_lcu::json::{json_eq, parse, Json};
use lol_lcu::lcu::api::match_history::{
    adapt_history, read_servers, region_of, sgp_address, HistoryAction, HistoryStage,
    MatchHistoryCall,
};
use lol_lcu::lcu::api::{Answer, LcuApiError, LcuClient};

fn client() -> LcuClient {
    LcuClient { base_url: "https://127.0.0.1:1".to_string() }
}

fn json(s: &str) -> Json {
    parse(s).unwrap()
}

fn endpoint(a: &HistoryAction) -> (u64, String) {
    match a {
        HistoryAction::Ask { after_ms, request } => (*after_ms, request.endpoint.clone()),
        _ => panic!("no request to the client"),
    }
}

const FIRST: &str = "/lol-match-history/v1/products/lol/p1/matches?begIndex=0&endIndex=7";

#[test]
fn a_history_of_the_client_is_taken() {
    let (call, action) = client().get_match_history("p1", 8);
    assert_eq!(endpoint(&action), (0, FIRST.to_string()));
    let answer = json("{\"games\":{\"games\":[{\"gameId\":1}]}}");
    match call.resume(Ok(answer.copy())).1 {
        HistoryAction::Done(Ok(v)) => assert!(json_eq(&v, &answer)),
        _ => panic!("the history is there"),
    }
}

#[test]
fn a_count_of_zero() {
    let (_, action) = client().get_match_history("p1", 0);
    assert_eq!(
        endpoint(&action).1,
        "/lol-match-history/v1/products/lol/p1/matches?begIndex=0&endIndex=0"
    );
}

fn exhausted() -> MatchHistoryCall {
    let (call, _) = client().get_match_history("p1", 8);
    let (call, action) = call.resume(Ok(json("{\"games\":[]}")));
    assert_eq!(endpoint(&action), (600, FIRST.to_string()));
    let (call, action) = call.resume(Err(LcuApiError::Network("x".to_string())));
    assert_eq!(endpoint(&action), (600, FIRST.to_string()));
    let (call, action) = call.resume(Ok(json("{\"games\":{\"games\":[]}}")));
    assert_eq!(endpoint(&action), (0, "/lol-rso-auth/v1/authorization/access-token".to_string()));
    call
}

#[test]
fn the_servers_are_asked_after_three_attempts() {
    let (call, action) = exhausted().resume(Ok(json("{\"token\":\"AT\"}")));
    assert_eq!(endpoint(&action), (0, "/lol-entitlements/v1/token".to_string()));
    let (call, action) = call.resume(Ok(json("{\"accessToken\":\"ET\"}")));
    assert_eq!(endpoint(&action), (0, "/riotclient/region-locale".to_string()));
    let (call, action) = call.resume(Ok(json("{\"region\":\"NA\"}")));
    match action {
        HistoryAction::Fetch(r) => {
            assert_eq!(
                r.url,
                "https://sgp.pvp.net/match-history-query/v1/products/lol/player/p1/SUMMARY?count=8"
            );
            assert_eq!(r.authorization, "Bearer AT");
            assert_eq!(r.entitlements, "ET");
        }
        _ => panic!("the servers come next"),
    }
    let body = "[{\"gameId\":4}]".to_string();
    match call.resume_servers(Answer::Response { status: 200, body: Ok(body) }) {
        HistoryAction::Done(Ok(v)) => {
            assert!(json_eq(&v, &json("{\"games\":{\"games\":[{\"gameId\":4}]}}")))
        }
        _ => panic!("the servers gave a history"),
    }
}

#[test]
fn without_a_token_the_answer_of_the_client_stands() {
    match exhausted().resume(Ok(json("{}"))).1 {
        HistoryAction::Done(Ok(v)) => assert!(json_eq(&v, &json("{\"games\":{\"games\":[]}}"))),
        _ => panic!("the call is over"),
    }
    let (call, _) = exhausted().resume(Ok(json("{\"token\":\"AT\"}")));
    let (call, action) = call.resume(Err(LcuApiError::Other("x".to_string())));
    assert!(matches!(call.stage, HistoryStage::Finished));
    assert!(matches!(action, HistoryAction::Done(Ok(_))));
}

#[test]
fn without_the_servers_the_answer_of_the_client_stands() {
    let (call, _) = exhausted().resume(Ok(json("{\"token\":\"AT\"}")));
    let (call, _) = call.resume(Ok(json("{\"accessToken\":\"ET\"}")));
    let (call, action) = call.resume(Err(LcuApiError::Network("x".to_string())));
    match action {
        HistoryAction::Fetch(r) => assert_eq!(
            r.url,
            "https://bgp.pallas.penta.qq.com/sgp/shno/v1/products/lol/player-history/v1/products/lol/p1/matches?begIndex=0&endIndex=7"
        ),
        _ => panic!("the servers come next"),
    }
    match call.resume_servers(Answer::Failed("x".to_string())) {
        HistoryAction::Done(Ok(v)) => assert!(json_eq(&v, &json("{\"games\":{\"games\":[]}}"))),
        _ => panic!("the call is over"),
    }
}

#[test]
fn the_region_decides_the_address() {
    assert_eq!(region_of(&Ok(json("{\"region\":\"HN1\"}"))), "hn1");
    assert_eq!(region_of(&Ok(json("{\"region\":\"KR\"}"))), "kr");
    assert_eq!(region_of(&Ok(json("{}"))), "hn1");
    assert_eq!(region_of(&Err(LcuApiError::Other(String::new()))), "hn1");
    for region in ["hn10", "tj101", "sh", "gz100"] {
        assert!(sgp_address(region, "p", 3).starts_with("https://bgp.pallas.penta.qq.com/"));
    }
    assert!(sgp_address("euw", "p", 3).ends_with("/p/SUMMARY?count=3"));
}

#[test]
fn histories_of_the_servers_are_adapted() {
    let adapted = |s: &str| adapt_history(json(s));
    assert!(json_eq(&adapted("[1]"), &json("{\"games\":{\"games\":[1]}}")));
    assert!(json_eq(&adapted("{\"games\":[1],\"x\":2}"), &json("{\"games\":{\"games\":[1]}}")));
    assert!(json_eq(&adapted("{\"games\":{\"games\":[1]},\"x\":2}"), &json("{\"games\":{\"games\":[1]},\"x\":2}")));
    assert!(json_eq(&adapted("{\"x\":2}"), &json("{\"games\":{\"games\":[{\"x\":2}]}}")));
    assert!(json_eq(&adapted("5"), &json("{\"games\":{\"games\":[5]}}")));
}

#[test]
fn answers_of_the_servers() {
    match read_servers("u", Answer::Response { status: 302, body: Ok("b".to_string()) }) {
        Err(e) => assert_eq!(e.message(), "HTTP 302 GET (SGP) u: b"),
        Ok(_) => panic!("no success"),
    }
    match read_servers("u", Answer::Response { status: 200, body: Ok("{".to_string()) }) {
        Err(e) => assert_eq!(e.message(), "网络错误: error decoding response body"),
        Ok(_) => panic!("no JSON"),
    }
    match read_servers("u", Answer::Response { status: 200, body: Err("cut off".to_string()) }) {
        Err(e) => assert_eq!(e.message(), "网络错误: cut off"),
        Ok(_) => panic!("no body"),
    }
}

#[test]
fn which_histories_hold_games() {
    assert!(LcuClient::is_match_history_valid(&json("{\"games\":[1]}")));
    assert!(LcuClient::is_match_history_valid(&json("{\"games\":{\"games\":[1]}}")));
    assert!(!LcuClient::is_match_history_valid(&json("{\"games\":{\"games\":[]}}")));
    assert!(!LcuClient::is_match_history_valid(&json("{\"games\":5}")));
    assert!(!LcuClient::is_match_history_valid(&json("{}")));
}

#[test]
fn tokens_in_answers() {
    assert_eq!(LcuClient::access_token(Ok(json("{\"token\":\"a\"}"))).ok().as_deref(), Some("a"));
    assert_eq!(
        LcuClient::access_token(Ok(json("{}"))).err().unwrap().message(),
        "未找到 access token"
    );
    assert_eq!(
        LcuClient::entitlements_token(Ok(json("{\"accessToken\":1}"))).err().unwrap().message(),
        "未找到 entitlements token"
    );
}
