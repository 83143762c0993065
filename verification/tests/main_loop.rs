//! Turns of the main loop.

use lol_lcu::app::config::AppConfig;
use lol_lcu::app::event::{AppEvent, TrayAction};
use lol_lcu::app::main_loop::{Effect, MainLoop};
use lol_lcu::json::{parse, Json};
use lol_lcu::lcu::api::LcuClient;
use lol_lcu::lcu::websocket::LcuEvent;

fn client() -> LcuClient {
    LcuClient { base_url: "https://127.0.0.1:1".to_string() }
}

fn name(e: &Effect) -> String {
    match e {
        Effect::Publish => "publish".to_string(),
        Effect::StartLcuTasks => "start tasks".to_string(),
        Effect::CancelLcuTasks => "cancel tasks".to_string(),
        Effect::CancelScout => "cancel scout".to_string(),
        Effect::StartIngameScout => "scout game".to_string(),
        Effect::StartScout { my_team, .. } => format!("scout {}", my_team.len()),
        Effect::CancelSniper => "cancel sniper".to_string(),
        Effect::StartSniper { champion_id, slot } => format!("snipe {} {}", champion_id, slot),
        Effect::AcceptReadyCheck => "accept".to_string(),
        Effect::SkipHonorVote { delay_secs } => format!("skip vote {}", delay_secs),
        Effect::FixWindow => "fix".to_string(),
        Effect::FixWindowFor { forced, .. } => format!("fix for {}", forced),
        Effect::ReloadUx => "reload".to_string(),
        Effect::PlayAgain => "play again".to_string(),
        Effect::FindForgottenLoot => "loot".to_string(),
        Effect::SaveConfig => "save".to_string(),
        Effect::SendQuit => "send quit".to_string(),
        Effect::Stop => "stop".to_string(),
    }
}

struct World {
    main: MainLoop,
    config: AppConfig,
}

impl World {
    fn new() -> World {
        World { main: MainLoop::new(), config: AppConfig::default() }
    }

    fn connected() -> World {
        let mut w = World::new();
        w.run(AppEvent::LcuConnected(client()));
        w
    }

    fn run(&mut self, e: AppEvent) -> Vec<String> {
        self.main.run(&mut self.config, e).iter().map(name).collect()
    }

    fn phase(&mut self, p: &str) -> Vec<String> {
        self.run(AppEvent::LcuPhaseChanged(p.to_string()))
    }

    fn event(&mut self, uri: &str, payload: &str) -> Vec<String> {
        self.run(AppEvent::LcuEvent(LcuEvent {
            opcode: String::new(),
            event_type: String::new(),
            uri: uri.to_string(),
            payload: parse(payload).unwrap(),
        }))
    }

    fn result(&mut self, puuid: &str, content: &str, is_premade: bool, is_enemy: bool) -> Vec<String> {
        self.run(AppEvent::ScoutResult {
            puuid: puuid.to_string(),
            content: content.to_string(),
            is_premade,
            is_enemy,
        })
    }
}

fn none() -> Vec<String> {
    Vec::new()
}

#[test]
fn connecting() {
    let mut w = World::new();
    assert!(w.main.client().is_none());
    assert_eq!(w.run(AppEvent::LcuConnected(client())), vec!["publish", "start tasks"]);
    let vm = w.main.view_model();
    assert!(vm.is_connected && vm.hud1_visible);
    assert_eq!(vm.hud1_title, "已连接 LCU");
    assert_eq!(w.main.client().unwrap().base_url, "https://127.0.0.1:1");
    assert_eq!(
        w.run(AppEvent::LcuConnected(client())),
        vec!["publish", "cancel tasks", "start tasks"]
    );
}

#[test]
fn disconnecting() {
    let mut w = World::connected();
    w.result("a", "line", false, false);
    assert_eq!(w.run(AppEvent::LcuDisconnected), vec!["cancel tasks", "publish"]);
    let vm = w.main.view_model();
    assert!(!vm.is_connected);
    assert_eq!(vm.current_phase, "Disconnected");
    assert_eq!(vm.hud1_title, "等待 LCU 连接...");
    assert!(vm.hud1_lines.is_empty());
    assert!(w.main.client().is_none());
}

#[test]
fn titles_follow_the_phase() {
    let mut w = World::connected();
    assert_eq!(w.phase("Lobby"), vec!["publish"]);
    assert_eq!(w.main.view_model().hud1_title, "当前阶段: Lobby");
    w.phase("None");
    assert_eq!(w.main.view_model().hud1_title, "已连接");
    w.phase("ChampSelect");
    assert_eq!(w.main.view_model().hud1_title, "当前阶段: ChampSelect");
    assert!(w.main.view_model().hud2_visible);
    w.phase("Lobby");
    assert!(!w.main.view_model().hud2_visible);
}

#[test]
fn phases_come_as_events_too() {
    let mut w = World::connected();
    assert_eq!(w.event("/lol-gameflow/v1/gameflow-phase", "\"Lobby\""), vec!["publish"]);
    assert_eq!(w.main.view_model().current_phase, "Lobby");
    assert_eq!(w.event("/lol-gameflow/v1/gameflow-phase", "5"), none());
    assert_eq!(w.event("/other", "\"ChampSelect\""), none());
    assert_eq!(w.main.view_model().current_phase, "Lobby");
}

#[test]
fn a_game_is_scouted_once() {
    let mut w = World::connected();
    assert_eq!(w.phase("InProgress"), vec!["scout game", "publish"]);
    w.result("a", "line", false, false);
    assert_eq!(w.phase("InProgress"), vec!["publish"]);
    assert_eq!(w.phase("Lobby"), vec!["cancel scout", "publish"]);
    assert_eq!(w.phase("GameStart"), vec!["scout game", "publish"]);
}

#[test]
fn a_game_without_results_is_scouted_again() {
    let mut w = World::connected();
    w.phase("InProgress");
    assert_eq!(w.phase("InProgress"), vec!["cancel scout", "scout game", "publish"]);
    w.config.premade_ingame = false;
    assert_eq!(w.phase("InProgress"), vec!["publish"]);
}

#[test]
fn the_panel_hides_after_two_minutes() {
    let mut w = World::connected();
    w.phase("InProgress");
    for _ in 0..119 {
        assert_eq!(w.run(AppEvent::Tick), none());
    }
    assert!(w.main.view_model().hud1_visible);
    assert_eq!(w.run(AppEvent::Tick), vec!["publish"]);
    assert!(!w.main.view_model().hud1_visible);
    assert_eq!(w.run(AppEvent::Tick), none());
}

#[test]
fn the_hotkey_recalls_the_panel() {
    let mut w = World::connected();
    w.phase("InProgress");
    assert_eq!(w.run(AppEvent::HotKeyF1), vec!["publish"]);
    assert!(!w.main.view_model().hud1_visible);
    w.run(AppEvent::HotKeyF1);
    assert!(w.main.view_model().hud1_visible);
    for _ in 0..29 {
        w.run(AppEvent::Tick);
    }
    assert!(w.main.view_model().hud1_visible);
    w.run(AppEvent::Tick);
    assert!(!w.main.view_model().hud1_visible);
}

#[test]
fn a_match_is_accepted_after_the_delay() {
    let mut w = World::connected();
    w.config.auto_accept_delay_secs = 2;
    assert_eq!(w.event("/lol-matchmaking/v1/ready-check", "{\"state\":\"InProgress\"}"), none());
    assert_eq!(w.run(AppEvent::Tick), none());
    w.event("/lol-matchmaking/v1/ready-check", "{\"state\":\"InProgress\"}");
    assert_eq!(w.run(AppEvent::Tick), vec!["accept"]);
    assert_eq!(w.run(AppEvent::Tick), none());
}

#[test]
fn a_match_is_not_accepted() {
    let mut w = World::connected();
    w.config.auto_accept_delay_secs = 1;
    w.event("/lol-matchmaking/v1/ready-check", "{\"state\":\"InProgress\"}");
    w.event("/lol-matchmaking/v1/ready-check", "{\"state\":\"EveryoneReady\"}");
    assert_eq!(w.run(AppEvent::Tick), none());
    w.config.auto_accept_enabled = false;
    w.event("/lol-matchmaking/v1/ready-check", "{\"state\":\"InProgress\"}");
    assert_eq!(w.run(AppEvent::Tick), none());
    w.config.auto_accept_enabled = true;
    w.event("/lol-matchmaking/v1/ready-check", "{\"state\":\"InProgress\"}");
    w.event("/lol-matchmaking/v1/ready-check", "{}");
    w.run(AppEvent::LcuDisconnected);
    assert_eq!(w.run(AppEvent::Tick), none());
}

const SESSION: &str = "{\"benchChampionIds\":[11,22],\"myTeam\":[{\"puuid\":\"p\",\"summonerName\":\"N\",\"team\":100}]}";

#[test]
fn a_session_is_scouted_once() {
    let mut w = World::connected();
    w.phase("ChampSelect");
    assert_eq!(w.event("/lol-champ-select/v1/session", SESSION), vec!["scout 1"]);
    assert_eq!(w.event("/lol-champ-select/v1/session", SESSION), none());
    assert_eq!(w.run(AppEvent::LcuSessionUpdated(parse(SESSION).unwrap())), none());
}

#[test]
fn a_session_is_not_scouted_where_it_is_not_wanted() {
    let mut w = World::connected();
    w.config.premade_champ_select = false;
    assert_eq!(w.event("/lol-champ-select/v1/session", SESSION), none());
    let mut w = World::new();
    assert_eq!(w.event("/lol-champ-select/v1/session", SESSION), none());
}

#[test]
fn clicks_on_the_bench() {
    let mut w = World::connected();
    w.phase("ChampSelect");
    assert_eq!(w.run(AppEvent::BenchClick(0)), none());
    w.event("/lol-champ-select/v1/session", SESSION);
    assert_eq!(w.run(AppEvent::BenchClick(1)), vec!["snipe 22 1", "publish"]);
    assert_eq!(w.main.view_model().hud2_selected_slot, Some(1));
    assert_eq!(w.run(AppEvent::BenchClick(0)), vec!["cancel sniper", "snipe 11 0", "publish"]);
    assert_eq!(w.run(AppEvent::SniperFinished(1)), none());
    assert_eq!(w.main.view_model().hud2_selected_slot, Some(0));
    assert_eq!(w.run(AppEvent::BenchClick(0)), vec!["cancel sniper", "publish"]);
    assert_eq!(w.main.view_model().hud2_selected_slot, None);
    w.run(AppEvent::BenchClick(1));
    assert_eq!(w.run(AppEvent::SniperFinished(1)), vec!["publish"]);
    assert_eq!(w.main.view_model().hud2_selected_slot, None);
    assert_eq!(w.run(AppEvent::BenchClick(2)), none());
}

#[test]
fn a_second_click_undoes_the_first() {
    let mut w = World::connected();
    w.phase("ChampSelect");
    w.event("/lol-champ-select/v1/session", SESSION);
    let first: Vec<String> = w.main.handle_bench_click(1).iter().map(name).collect();
    assert_eq!(first, vec!["snipe 22 1", "publish"]);
    assert_eq!(w.main.view_model().hud2_selected_slot, Some(1));
    let second: Vec<String> = w.main.handle_bench_click(1).iter().map(name).collect();
    assert_eq!(second, vec!["cancel sniper", "publish"]);
    assert_eq!(w.main.view_model().hud2_selected_slot, None);
    assert!(w.main.handle_bench_click(2).is_empty());
}

#[test]
fn a_click_beyond_the_bench_changes_nothing() {
    let mut w = World::connected();
    w.phase("ChampSelect");
    w.event("/lol-champ-select/v1/session", SESSION);
    w.run(AppEvent::BenchClick(1));
    for slot in [2, 9, usize::MAX] {
        assert_eq!(w.run(AppEvent::BenchClick(slot)), none());
        assert_eq!(w.main.view_model().hud2_selected_slot, Some(1));
    }
}

#[test]
fn leaving_champion_select_ends_sniping() {
    let mut w = World::connected();
    w.phase("ChampSelect");
    w.event("/lol-champ-select/v1/session", SESSION);
    w.run(AppEvent::BenchClick(1));
    assert_eq!(w.phase("Lobby"), vec!["cancel sniper", "cancel scout", "publish"]);
    assert_eq!(w.main.view_model().hud2_selected_slot, None);
}

#[test]
fn results_are_listed_in_order() {
    let mut w = World::connected();
    assert_eq!(w.result("b", "z line", false, false), vec!["publish"]);
    w.result("a", "a line", false, false);
    w.result("e", "enemy", false, true);
    w.result("TEAM_PREMADE", "head\nbody", true, false);
    w.result("b", "b line", false, false);
    assert_eq!(
        w.main.view_model().hud1_lines,
        vec!["head", "body", "", "[我方评分]", "a line", "b line", "", "[敌方评分]", "enemy"]
    );
}

#[test]
fn the_order_of_results_does_not_matter() {
    let mut one = World::connected();
    one.result("a", "x", false, false);
    one.result("b", "x", false, false);
    one.result("c", "y", false, true);
    let mut two = World::connected();
    two.result("c", "y", false, true);
    two.result("b", "x", false, false);
    two.result("a", "x", false, false);
    assert_eq!(one.main.view_model().hud1_lines, two.main.view_model().hud1_lines);
    assert_eq!(one.main.view_model().hud1_lines, vec!["[我方评分]", "x", "x", "", "[敌方评分]", "y"]);
}

#[test]
fn the_end_of_a_game() {
    let mut w = World::connected();
    assert_eq!(w.phase("EndOfGame"), vec!["skip vote 2", "publish"]);
    w.config.auto_honor_skip = false;
    assert_eq!(w.phase("EndOfGame"), vec!["publish"]);
}

#[test]
fn choices_in_the_tray() {
    let mut w = World::connected();
    let choices = [
        (TrayAction::FixWindow, "fix"),
        (TrayAction::ReloadUx, "reload"),
        (TrayAction::PlayAgain, "play again"),
        (TrayAction::FindForgottenLoot, "loot"),
        (TrayAction::Exit, "send quit"),
    ];
    for (action, effect) in choices {
        assert_eq!(w.run(AppEvent::TrayAction(action)), vec![effect]);
    }
    let before = w.config;
    assert_eq!(w.run(AppEvent::TrayAction(TrayAction::ToggleAutoAccept)), vec!["save"]);
    assert!(w.config.auto_accept_enabled != before.auto_accept_enabled);
    w.run(AppEvent::TrayAction(TrayAction::ToggleAutoAccept));
    assert!(w.config == before);
    w.run(AppEvent::TrayAction(TrayAction::ToggleAutoHonor));
    assert!(!w.config.auto_honor_skip);
    w.run(AppEvent::TrayAction(TrayAction::TogglePremadeChamp));
    assert!(!w.config.premade_champ_select);
    w.run(AppEvent::TrayAction(TrayAction::ToggleMemoryMonitor));
    assert!(!w.config.memory_monitor);
    let mut w = World::new();
    assert_eq!(w.run(AppEvent::TrayAction(TrayAction::ToggleAutoAccept)), none());
    assert!(w.config == AppConfig::default());
}

#[test]
fn the_tray_ends_the_program_without_a_client() {
    let mut w = World::new();
    assert_eq!(w.run(AppEvent::TrayAction(TrayAction::Exit)), vec!["send quit"]);
    let others = [
        TrayAction::FixWindow,
        TrayAction::ReloadUx,
        TrayAction::PlayAgain,
        TrayAction::FindForgottenLoot,
    ];
    for action in others {
        assert_eq!(w.run(AppEvent::TrayAction(action)), none());
    }
    w.run(AppEvent::LcuConnected(client()));
    w.run(AppEvent::LcuDisconnected);
    assert_eq!(w.run(AppEvent::TrayAction(TrayAction::Exit)), vec!["send quit"]);
}

#[test]
fn the_position_of_the_client() {
    let mut w = World::connected();
    let at = |x: i32, zoom: f64| AppEvent::WindowRectUpdated {
        x,
        y: 2,
        width: 1280,
        height: 720,
        zoom_scale: zoom.to_bits(),
    };
    assert_eq!(w.run(at(1, 1.5)), vec!["publish"]);
    assert_eq!(w.main.view_model().lcu_rect.x, 1);
    assert_eq!(f64::from_bits(w.main.view_model().zoom_scale_bits), 1.5);
    assert_eq!(w.run(at(1, 1.0)), none());
    assert_eq!(f64::from_bits(w.main.view_model().zoom_scale_bits), 1.5);
    assert_eq!(w.run(at(3, 1.0)), vec!["publish"]);
}

#[test]
fn fixing_and_ending() {
    let mut w = World::new();
    assert_eq!(w.run(AppEvent::RequestWindowFix { zoom: 0, forced: true }), vec!["fix for true"]);
    assert_eq!(w.run(AppEvent::Quit), vec!["stop"]);
    assert_eq!(w.event("/lol-matchmaking/v1/ready-check", "7"), none());
    assert!(matches!(parse("null"), Ok(Json::Null)));
}

#[test]
fn ending_cancels_everything() {
    let mut w = World::connected();
    w.phase("ChampSelect");
    w.event("/lol-champ-select/v1/session", SESSION);
    w.run(AppEvent::BenchClick(1));
    assert_eq!(
        w.run(AppEvent::Quit),
        vec!["cancel tasks", "cancel scout", "cancel sniper", "stop"]
    );
    assert_eq!(w.run(AppEvent::Quit), vec!["stop"]);
}

#[test]
fn options_by_default() {
    let c = AppConfig::default();
    assert!(c.auto_accept_enabled && c.auto_honor_skip && c.premade_champ_select);
    assert!(c.premade_ingame && c.memory_monitor);
    assert_eq!(c.auto_accept_delay_secs, 5);
    assert_eq!(c.memory_threshold_mb, 1500);
    assert_eq!(c.opacity, 95);
}
