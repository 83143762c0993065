//! Requests to the client and what is made of the answers.

use lol_lcu::json::{json_eq, parse, Json, Number};
use lol_lcu::lcu::api::chat::{SelfMessage, SelfMessageNext, SelfMessageStage};
use lol_lcu::lcu::api::honor::{HonorNext, HonorSkip};
use lol_lcu::lcu::api::{Answer, LcuApiError, LcuClient, Method, Request};

fn client() -> LcuClient {
    LcuClient { base_url: "https://127.0.0.1:1".to_string() }
}

fn json(s: &str) -> Json {
    parse(s).unwrap()
}

fn refused() -> Result<Json, LcuApiError> {
    Err(LcuApiError::Http {
        status: 404,
        method: "POST".to_string(),
        endpoint: "/x".to_string(),
        body: "no".to_string(),
    })
}

fn offline() -> Result<Json, LcuApiError> {
    Err(LcuApiError::Network("down".to_string()))
}

fn check(r: &Request, method: Method, endpoint: &str, body: Option<&str>) {
    assert!(r.method == method);
    assert_eq!(r.endpoint, endpoint);
    match (&r.body, body) {
        (Some(b), Some(text)) => assert!(json_eq(b, &json(text))),
        (None, None) => {}
        _ => panic!("body of {}", endpoint),
    }
}

#[test]
fn plain_requests() {
    let c = client();
    check(&c.get_gameflow_phase(), Method::Get, "/lol-gameflow/v1/gameflow-phase", None);
    check(&c.get_gameflow_session(), Method::Get, "/lol-gameflow/v1/session", None);
    check(&c.get_riotclient_zoom_scale(), Method::Get, "/riotclient/zoom-scale", None);
    check(&c.reload_ux(), Method::Post, "/riotclient/kill-and-restart-ux", None);
    check(&c.play_again(), Method::Post, "/lol-lobby/v2/play-again", None);
    check(&c.get_lobby(), Method::Get, "/lol-lobby/v2/lobby", None);
    check(&c.get_ready_check(), Method::Get, "/lol-matchmaking/v1/ready-check", None);
    check(&c.accept_ready_check(), Method::Post, "/lol-matchmaking/v1/ready-check/accept", None);
    check(&c.decline_ready_check(), Method::Post, "/lol-matchmaking/v1/ready-check/decline", None);
    check(&c.dismiss_end_of_game_stats(), Method::Post, "/lol-end-of-game/v1/state/dismiss-stats", None);
    check(&c.get_current_summoner(), Method::Get, "/lol-summoner/v1/current-summoner", None);
    check(&c.get_honor_ballot(), Method::Get, "/lol-honor-v2/v1/ballot", None);
    check(&c.get_champ_select_session(), Method::Get, "/lol-champ-select/v1/session", None);
    check(&c.get_pickable_champion_ids(), Method::Get, "/lol-champ-select/v1/pickable-champion-ids", None);
    check(&c.reroll_aram(), Method::Post, "/lol-champ-select/v1/session/my-selection/reroll", None);
    check(&c.swap_bench_champion(-7), Method::Post, "/lol-champ-select/v1/session/bench/swap/-7", None);
    check(&c.get_chat_me(), Method::Get, "/lol-chat/v1/me", None);
    check(&c.get_game(12), Method::Get, "/lol-match-history/v1/games/12", None);
    check(&c.get_entitlements_token(), Method::Get, "/lol-entitlements/v1/token", None);
    check(&c.get_access_token(), Method::Get, "/lol-rso-auth/v1/authorization/access-token", None);
    check(&c.get_player_loot(), Method::Get, "/lol-loot/v1/player-loot", None);
    check(
        &c.call_loot_recipe("CHEST_1", "CHEST_generic_OPEN"),
        Method::Post,
        "/lol-loot/v1/recipes/CHEST_generic_OPEN/craft?repeat=1",
        Some("[\"CHEST_1\"]"),
    );
    check(&c.delete_json("/y"), Method::Delete, "/y", None);
    check(&c.patch_json("/y", json("3")), Method::Patch, "/y", Some("3"));
    assert_eq!(Method::Delete.verb(), "DELETE");
    assert_eq!(c.copy().base_url, c.base_url);
}

#[test]
fn answers_of_the_client() {
    let r = client().get_lobby();
    let ok = |s: u16, b: &str| Answer::Response { status: s, body: Ok(b.to_string()) };
    assert!(json_eq(&LcuClient::answer(&r, ok(200, "{\"a\":1}")).unwrap(), &json("{\"a\":1}")));
    assert!(matches!(LcuClient::answer(&r, ok(204, "")), Ok(Json::Null)));
    match LcuClient::answer(&r, ok(404, "no lobby")) {
        Err(e) => {
            assert!(e.is_http());
            assert_eq!(e.message(), "HTTP 404 GET /lol-lobby/v2/lobby: no lobby");
        }
        Ok(_) => panic!("an error status"),
    }
    assert!(matches!(LcuClient::answer(&r, ok(399, "1")), Ok(_)));
    match LcuClient::answer(&r, ok(200, "{")) {
        Err(LcuApiError::Json(m)) => assert!(m.starts_with("EOF while parsing")),
        _ => panic!("broken JSON"),
    }
    match LcuClient::answer(&r, Answer::Failed("refused".to_string())) {
        Err(e) => {
            assert!(!e.is_http());
            assert_eq!(e.message(), "网络错误: refused");
        }
        Ok(_) => panic!("no answer"),
    }
    let cut = Answer::Response { status: 200, body: Err("cut".to_string()) };
    assert!(matches!(LcuClient::answer(&r, cut), Err(LcuApiError::Network(m)) if m == "cut"));
    let cut = Answer::Response { status: 500, body: Err("cut".to_string()) };
    match LcuClient::answer(&r, cut) {
        Err(LcuApiError::Http { status, body, .. }) => assert!(status == 500 && body.is_empty()),
        _ => panic!("an error status"),
    }
    assert_eq!(LcuApiError::Json("j".to_string()).message(), "JSON 解析错误: j");
    assert_eq!(LcuApiError::Other("o".to_string()).message(), "o");
}

#[test]
fn assets_are_limited() {
    let asset = "/lol-game-data/assets/v1/x.json";
    assert!(LcuClient::is_asset_request(&client().get_json(asset)));
    assert!(!LcuClient::is_asset_request(&client().get_json("/lol-lobby/v2/lobby")));
    assert!(!LcuClient::is_asset_request(&client().delete_json(asset)));
}

#[test]
fn the_phase_in_an_answer() {
    assert_eq!(LcuClient::gameflow_phase(Ok(json("\"Lobby\""))).ok().as_deref(), Some("Lobby"));
    assert_eq!(LcuClient::gameflow_phase(Ok(json("5"))).ok().as_deref(), Some("None"));
    assert!(LcuClient::gameflow_phase(offline()).is_err());
}

#[test]
fn the_zoom_in_an_answer() {
    assert!(matches!(
        LcuClient::riotclient_zoom_scale(Ok(json("1.25")), ""),
        Ok(Number::Float(b)) if b == 1.25f64.to_bits()
    ));
    assert!(matches!(LcuClient::riotclient_zoom_scale(Ok(json("2")), ""), Ok(Number::Unsigned(2))));
    match LcuClient::riotclient_zoom_scale(Ok(json("\"x\"")), "String(\"x\")") {
        Err(e) => assert_eq!(e.message(), "无效的 zoom-scale 响应: String(\"x\")"),
        Ok(_) => panic!("no number"),
    }
}

#[test]
fn end_of_game_statistics() {
    assert!(matches!(LcuClient::end_of_game_stats_dismissed(Ok(Json::Null)), Ok(true)));
    assert!(matches!(LcuClient::end_of_game_stats_dismissed(refused()), Ok(false)));
    assert!(matches!(LcuClient::end_of_game_stats_dismissed(offline()), Err(LcuApiError::Network(_))));
}

#[test]
fn the_bench_in_a_session() {
    let ids = |s: &str| LcuClient::extract_bench_champion_ids(&json(s));
    assert_eq!(ids("{\"benchChampionIds\":[1,\"x\",2]}"), vec![1, 2]);
    assert_eq!(
        ids("{\"benchChampionIds\":[],\"benchChampions\":[{\"championId\":3},{},{\"championId\":4}]}"),
        vec![3, 4]
    );
    assert_eq!(ids("{\"benchChampionIds\":[\"x\"],\"benchChampions\":[{\"championId\":3}]}"), Vec::<i64>::new());
    assert_eq!(ids("{}"), Vec::<i64>::new());
    assert_eq!(ids("[]"), Vec::<i64>::new());
}

const SESSION: &str = "{\"localPlayerCellId\":2,\"myTeam\":[{\"cellId\":1,\"championId\":10},{\"cellId\":2,\"championId\":20}],\"actions\":[[{\"actorCellId\":2,\"type\":\"ban\",\"id\":1},7],{\"actorCellId\":2,\"type\":\"pick\",\"completed\":true,\"id\":2},[{\"actorCellId\":1,\"type\":\"pick\",\"id\":3},{\"actorCellId\":2,\"type\":\"pick\",\"id\":4}],5]}";

#[test]
fn the_local_player() {
    let s = json(SESSION);
    assert_eq!(LcuClient::get_local_player(&s).unwrap().get_i64("championId"), Some(20));
    assert!(LcuClient::get_local_player(&json("{\"myTeam\":[{\"cellId\":1}]}")).is_none());
    assert!(LcuClient::get_local_player(&json("{\"localPlayerCellId\":1}")).is_none());
    assert!(LcuClient::get_local_player(&json("{\"localPlayerCellId\":1,\"myTeam\":[{\"cellId\":1.0}]}")).is_none());
}

#[test]
fn the_actions_of_a_session() {
    let s = json(SESSION);
    let ids: Vec<Option<i64>> = LcuClient::iter_actions(&s).iter().map(|a| a.get_i64("id")).collect();
    assert_eq!(ids, vec![Some(1), Some(2), Some(3), Some(4)]);
    let find = |kind: &str, open: bool| {
        LcuClient::find_local_action_static(&s, kind, open).and_then(|a| a.get_i64("id"))
    };
    assert_eq!(find("pick", true), Some(4));
    assert_eq!(find("pick", false), Some(2));
    assert_eq!(find("ban", true), Some(1));
    assert_eq!(find("trade", true), None);
}

#[test]
fn picking_a_champion() {
    let c = client();
    check(
        &c.lock_champion(5, Some(9)),
        Method::Patch,
        "/lol-champ-select/v1/session/actions/9",
        Some("{\"championId\":5,\"completed\":true}"),
    );
    check(
        &c.hover_champion(5, Some(9)),
        Method::Patch,
        "/lol-champ-select/v1/session/actions/9",
        Some("{\"championId\":5,\"completed\":false}"),
    );
    check(&c.act_champion(5, true, None), Method::Get, "/lol-champ-select/v1/session", None);
    match LcuClient::act_champion_in(Ok(json(SESSION)), 5, true) {
        Ok(r) => check(
            &r,
            Method::Patch,
            "/lol-champ-select/v1/session/actions/4",
            Some("{\"championId\":5,\"completed\":true}"),
        ),
        Err(e) => panic!("{}", e.message()),
    }
    let complaint = |s: &str| LcuClient::act_champion_in(Ok(json(s)), 5, true).err().unwrap().message();
    assert_eq!(complaint("{}"), "当前没有可用的 pick 行动");
    assert_eq!(
        complaint("{\"localPlayerCellId\":1,\"actions\":[{\"actorCellId\":1,\"type\":\"pick\"}]}"),
        "action 缺少 id 字段"
    );
    assert!(LcuClient::act_champion_in(offline(), 5, true).is_err());
}

#[test]
fn owned_champions() {
    let c = client();
    match c.get_owned_champions_minimal(Ok(json("{\"summonerId\":77}"))) {
        Ok(r) => check(&r, Method::Get, "/lol-champions/v1/inventories/77/champions-minimal", None),
        Err(e) => panic!("{}", e.message()),
    }
    assert_eq!(
        c.get_owned_champions_minimal(Ok(json("{}"))).err().unwrap().message(),
        "未找到 summonerId"
    );
    let list = json("[{\"id\":1,\"name\":\"安妮\"},{\"id\":2,\"alias\":\"Olaf\"},{\"id\":3},{\"name\":\"x\"},5,{\"id\":1,\"name\":\"Annie\"}]");
    let owned = LcuClient::owned_champions_minimal(&list);
    assert_eq!(owned.len(), 5);
    let names = LcuClient::get_champion_id_name_map(&owned);
    assert_eq!(names.len(), 3);
    assert_eq!(names.get(&1).map(|s| s.as_str()), Some("Annie"));
    assert_eq!(names.get(&2).map(|s| s.as_str()), Some("Olaf"));
    assert_eq!(names.get(&3).map(|s| s.as_str()), Some("Champion-3"));
    assert_eq!(LcuClient::pickable_champion_ids(&json("[1,null,3]")), vec![1, 3]);
    assert!(LcuClient::pickable_champion_ids(&json("{}")).is_empty());
}

#[test]
fn a_message_to_oneself() {
    let c = client();
    let (m, first) = c.send_message_to_self("hello");
    check(&first, Method::Get, "/lol-chat/v1/me", None);
    assert!(matches!(m.stage, SelfMessageStage::Me));
    let m = match c.resume_message_to_self(&m, Ok(json("{\"pid\":\"p\"}"))) {
        SelfMessageNext::Send(r, stage) => {
            check(&r, Method::Post, "/lol-chat/v1/conversations", Some("{\"pid\":\"p\",\"type\":\"chat\"}"));
            SelfMessage { body: m.body, stage }
        }
        SelfMessageNext::Done(_) => panic!("too early"),
    };
    let m = match c.resume_message_to_self(&m, Ok(json("{\"id\":\"c\"}"))) {
        SelfMessageNext::Send(r, stage) => {
            check(
                &r,
                Method::Post,
                "/lol-chat/v1/conversations/c/messages",
                Some("{\"body\":\"hello\",\"type\":\"chat\"}"),
            );
            SelfMessage { body: m.body, stage }
        }
        SelfMessageNext::Done(_) => panic!("too early"),
    };
    assert!(matches!(c.resume_message_to_self(&m, Ok(Json::Null)), SelfMessageNext::Done(Ok(()))));
    assert!(matches!(c.resume_message_to_self(&m, offline()), SelfMessageNext::Done(Err(_))));
}

#[test]
fn a_message_without_an_address() {
    let c = client();
    let m = SelfMessage { body: String::new(), stage: SelfMessageStage::Me };
    match c.resume_message_to_self(&m, Ok(json("{}"))) {
        SelfMessageNext::Done(Err(e)) => assert_eq!(e.message(), "get_chat_me：响应缺少 pid 字段"),
        _ => panic!("no address"),
    }
    assert_eq!(
        LcuClient::conversation_id(Ok(json("{}"))).err().unwrap().message(),
        "open_conversation：响应缺少 id 字段"
    );
}

#[test]
fn every_way_to_skip_the_vote() {
    let mut step = LcuClient::skip_honor_vote();
    assert!(step == HonorSkip::Ballot);
    let expected = [
        ("/lol-honor-v2/v1/honor-player", Some("{\"gameId\":5,\"honorCategory\":\"OPT_OUT\",\"summonerId\":0}")),
        ("/lol-honor-v2/v1/honor-player", Some("{\"gameId\":5,\"honorCategory\":\"NONE\",\"summonerId\":0}")),
        ("/lol-honor-v2/v1/honor-player", Some("{\"gameId\":5,\"honorType\":\"OPT_OUT\",\"summonerId\":0}")),
        ("/lol-honor-v2/v1/ballot/skip", None),
        ("/lol-honor-v2/v1/skip", None),
    ];
    let mut answer = Ok(json("{\"gameId\":5}"));
    for (endpoint, body) in expected {
        step = match step.next(answer) {
            HonorNext::Send(s) => s,
            HonorNext::Done(_) => panic!("too early"),
        };
        check(&step.request(), Method::Post, endpoint, body);
        assert!(matches!(step.next(Ok(Json::Null)), HonorNext::Done(Ok(true))));
        assert!(matches!(step.next(offline()), HonorNext::Done(Err(LcuApiError::Network(_)))));
        answer = refused();
    }
    assert!(matches!(step.next(refused()), HonorNext::Done(Ok(false))));
}

#[test]
fn no_vote_without_a_game() {
    let first = LcuClient::skip_honor_vote();
    assert!(matches!(first.next(refused()), HonorNext::Done(Ok(false))));
    assert!(matches!(first.next(offline()), HonorNext::Done(Ok(false))));
    assert!(matches!(first.next(Ok(json("{}"))), HonorNext::Send(HonorSkip::Skip { endpoint: 0 })));
}
