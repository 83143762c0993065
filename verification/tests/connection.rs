//! The client's credentials, its events, and the connection to it.

use lol_lcu::app::event::AppEvent;
use lol_lcu::json::{json_eq, parse};
use lol_lcu::lcu::api::{LcuApiError, LcuClient};
use lol_lcu::lcu::connection::{
    basic_header, find_lcu_credentials, is_lcu_process, request_headers, LcuCredentials,
    ProcessInfo,
};
use lol_lcu::lcu::monitor::{connection_monitor_loop, MonitorEvent, MonitorStage, RESTART_SECS};
use lol_lcu::lcu::websocket::{
    event_from_text, is_watched, on_message, ws_url, LcuEvent, WsMessage, WsOutcome, SUBSCRIPTION,
};

fn args(v: &[&str]) -> Vec<String> {
    v.iter().map(|s| s.to_string()).collect()
}

#[test]
fn credentials_from_arguments() {
    let creds = LcuCredentials::from_cmdline(&args(&[
        "LeagueClient.exe",
        "--app-port=12345",
        "--remoting-auth-token=abcdef",
    ]))
    .unwrap();
    assert_eq!(creds.port, 12345);
    assert_eq!(creds.auth_token, "abcdef");
    assert_eq!(creds.auth_header, "Basic cmlvdDphYmNkZWY=");
}

#[test]
fn headers_for_tokens() {
    for (token, header) in [
        ("", "Basic cmlvdDo="),
        ("a", "Basic cmlvdDph"),
        ("ab", "Basic cmlvdDphYg=="),
        ("评", "Basic cmlvdDror4Q="),
        ("~~~???", "Basic cmlvdDp+fn4/Pz8="),
    ] {
        let token = format!("--remoting-auth-token={}", token);
        let creds = LcuCredentials::from_cmdline(&args(&["--app-port=1", token.as_str()])).unwrap();
        assert_eq!(creds.auth_header, header);
    }
}

#[test]
fn the_last_argument_counts() {
    let creds = LcuCredentials::from_cmdline(&args(&[
        "--app-port=1",
        "--remoting-auth-token=a",
        "--app-port=2",
        "--remoting-auth-token=b",
    ]))
    .unwrap();
    assert_eq!(creds.port, 2);
    assert_eq!(creds.auth_token, "b");
}

#[test]
fn incomplete_arguments_give_no_credentials() {
    assert!(LcuCredentials::from_cmdline(&args(&[])).is_none());
    assert!(LcuCredentials::from_cmdline(&args(&["--app-port=1"])).is_none());
    assert!(LcuCredentials::from_cmdline(&args(&["--remoting-auth-token=a"])).is_none());
    assert!(LcuCredentials::from_cmdline(&args(&[
        "--app-port=1",
        "--remoting-auth-token=a",
        "--app-port=70000",
    ]))
    .is_none());
}

#[test]
fn the_process_is_found_in_any_case() {
    let found = find_lcu_credentials(&vec![
        ProcessInfo { name: "explorer.exe".to_string(), cmd: args(&["--app-port=9", "--remoting-auth-token=x"]) },
        ProcessInfo { name: "LeagueClient.exe".to_string(), cmd: args(&["--app-port=9"]) },
        ProcessInfo {
            name: "LEAGUECLIENTUX.EXE".to_string(),
            cmd: args(&["--app-port=8", "--remoting-auth-token=y"]),
        },
    ])
    .unwrap();
    assert_eq!(found.port, 8);
    assert!(find_lcu_credentials(&vec![]).is_none());
    assert!(is_lcu_process("leagueclient.exe"));
    assert!(!is_lcu_process("leagueclientuxrender.exe"));
}

fn creds() -> LcuCredentials {
    LcuCredentials {
        port: 7,
        auth_token: "t".to_string(),
        auth_header: basic_header("cmlvdDp0"),
    }
}

#[test]
fn headers_and_addresses() {
    let c = creds();
    assert_eq!(c.auth_header, "Basic cmlvdDp0");
    assert_eq!(
        request_headers(&c),
        vec![
            ("Authorization", "Basic cmlvdDp0".to_string()),
            ("Content-Type", "application/json".to_string()),
            ("Accept", "application/json".to_string()),
        ]
    );
    assert_eq!(ws_url(&c), "wss://127.0.0.1:7/");
    assert_eq!(LcuClient::new(&c).base_url, "https://127.0.0.1:7");
    assert_eq!(LcuClient::new(&c).url("/x"), "https://127.0.0.1:7/x");
    assert_eq!(SUBSCRIPTION, "[5,\"OnJsonApiEvent\"]");
}

const EVENT: &str = "{\"opcode\":\"8\",\"event_type\":\"Update\",\"uri\":\"/lol-gameflow/v1/gameflow-phase\",\"payload\":\"Lobby\"}";

#[test]
fn an_event_is_read() {
    let text = format!("[8,\"OnJsonApiEvent\",{}]", EVENT);
    let e = event_from_text(&text).unwrap();
    assert_eq!(e.uri, "/lol-gameflow/v1/gameflow-phase");
    assert_eq!(e.event_type, "Update");
    assert_eq!(e.payload.as_str(), Some("Lobby"));
    let copy = e.copy();
    assert_eq!(copy.opcode, "8");
    assert!(json_eq(&copy.payload, &e.payload));
}

#[test]
fn other_messages_are_no_events() {
    assert!(event_from_text("").is_none());
    assert!(event_from_text("{}").is_none());
    assert!(event_from_text("[8,\"OnJsonApiEvent\"]").is_none());
    assert!(event_from_text(&format!("[5,\"OnJsonApiEvent\",{}]", EVENT)).is_none());
    assert!(event_from_text(&format!("[8.0,\"OnJsonApiEvent\",{}]", EVENT)).is_none());
    assert!(event_from_text(&format!("[8,\"Other\",{}]", EVENT)).is_none());
    assert!(event_from_text("[8,\"OnJsonApiEvent\",{\"uri\":\"/lobby\"}]").is_none());
    assert!(event_from_text(
        "[8,\"OnJsonApiEvent\",{\"opcode\":\"8\",\"event_type\":\"U\",\"uri\":\"/lol-chat\",\"payload\":1}]"
    )
    .is_none());
    assert!(is_watched("/lol-lobby/v2/lobby"));
    assert!(is_watched("/lol-matchmaking/v1/ready-check"));
    assert!(is_watched("/lol-champ-select/v1/session"));
    assert!(!is_watched("/lol-honor-v2/v1/ballot"));
}

#[test]
fn an_event_may_be_a_list() {
    let v = parse("[\"8\",\"Update\",\"/lobby\",{\"a\":1}]").unwrap();
    let e = LcuEvent::from_json(&v).unwrap();
    assert_eq!(e.uri, "/lobby");
    assert_eq!(e.payload.get_i64("a"), Some(1));
    assert!(LcuEvent::from_json(&parse("[\"8\",\"Update\",\"/lobby\"]").unwrap()).is_none());
}

#[test]
fn messages_on_the_connection() {
    let text = format!("[8,\"OnJsonApiEvent\",{}]", EVENT);
    assert!(matches!(on_message(&WsMessage::Text(text)), WsOutcome::Event(_)));
    assert!(matches!(on_message(&WsMessage::Text("x".to_string())), WsOutcome::Ignore));
    assert!(matches!(on_message(&WsMessage::Other), WsOutcome::Ignore));
    assert!(matches!(on_message(&WsMessage::Close), WsOutcome::End));
    assert!(matches!(on_message(&WsMessage::Failed), WsOutcome::End));
}

#[test]
fn a_connection_from_beginning_to_end() {
    let s = connection_monitor_loop(MonitorStage::Searching, MonitorEvent::Found);
    assert!(s.stage == MonitorStage::Building && s.tell.is_none() && s.wait_secs == 0);
    let s = connection_monitor_loop(s.stage, MonitorEvent::Built(true));
    assert!(s.stage == MonitorStage::Connecting);
    let s = connection_monitor_loop(s.stage, MonitorEvent::Opened(Some(LcuClient::new(&creds()))));
    assert!(s.stage == MonitorStage::Greeting);
    assert!(matches!(s.tell, Some(AppEvent::LcuConnected(_))));
    let s = connection_monitor_loop(s.stage, MonitorEvent::Phase(Ok("Lobby".to_string())));
    assert!(s.stage == MonitorStage::Forwarding);
    assert!(matches!(s.tell, Some(AppEvent::LcuPhaseChanged(p)) if p == "Lobby"));
    let e = LcuEvent::from_json(&parse(EVENT).unwrap()).unwrap();
    let s = connection_monitor_loop(s.stage, MonitorEvent::Event(e));
    assert!(s.stage == MonitorStage::Forwarding);
    assert!(matches!(s.tell, Some(AppEvent::LcuEvent(_))));
    let s = connection_monitor_loop(s.stage, MonitorEvent::Closed);
    assert!(s.stage == MonitorStage::Searching && s.wait_secs == RESTART_SECS);
    assert!(matches!(s.tell, Some(AppEvent::LcuDisconnected)));
}

#[test]
fn a_failed_stage_starts_over() {
    let s = connection_monitor_loop(MonitorStage::Building, MonitorEvent::Built(false));
    assert!(s.stage == MonitorStage::Searching && s.wait_secs == 3 && s.tell.is_none());
    let s = connection_monitor_loop(MonitorStage::Connecting, MonitorEvent::Opened(None));
    assert!(s.stage == MonitorStage::Searching && s.wait_secs == 3 && s.tell.is_none());
    let s = connection_monitor_loop(
        MonitorStage::Greeting,
        MonitorEvent::Phase(Err(LcuApiError::Network("x".to_string()))),
    );
    assert!(s.stage == MonitorStage::Forwarding && s.tell.is_none());
    let s = connection_monitor_loop(MonitorStage::Searching, MonitorEvent::Closed);
    assert!(s.stage == MonitorStage::Searching && s.tell.is_none() && s.wait_secs == 0);
}
