//! Reactions to single events of the client.

use lol_lcu::app::config::AppConfig;
use lol_lcu::app::dispatcher::{dispatch_lcu_event, Route};
use lol_lcu::app::handlers::board::{failure_line, rating_line, Board};
use lol_lcu::app::handlers::champ_select::handle_champ_select;
use lol_lcu::app::handlers::gameflow::{
    handle_gameflow, has_players, status_message, status_needs_session,
};
use lol_lcu::app::handlers::honor::HonorState;
use lol_lcu::app::handlers::overlay_click::{handle_overlay_click, ClickReaction, Pick};
use lol_lcu::app::handlers::ready_check::{PendingAccept, ReadyCheckState};
use lol_lcu::app::handlers::utils::{event_data, OverlayCmd};
use lol_lcu::app::state::RuntimeState;
use lol_lcu::json::{parse, Json};
use lol_lcu::lcu::api::LcuApiError;

fn json(s: &str) -> Json {
    parse(s).unwrap()
}

fn name(c: &OverlayCmd) -> String {
    match c {
        OverlayCmd::Show => "show".to_string(),
        OverlayCmd::Hide => "hide".to_string(),
        OverlayCmd::ShowBench(b) => format!("bench {}", b),
        OverlayCmd::UpdateHud(a, b) => format!("hud {} {}", a, b),
        OverlayCmd::UpdateProphet(a) => format!("prophet {}", a),
        OverlayCmd::ClearHud => "clear".to_string(),
        OverlayCmd::AutoFixWindow => "fix".to_string(),
        OverlayCmd::SetSelectedSlot(i) => format!("select {}", i),
        OverlayCmd::ClearSelectedSlot => "unselect".to_string(),
    }
}

fn names(v: &[OverlayCmd]) -> Vec<String> {
    v.iter().map(name).collect()
}

#[test]
fn routes() {
    assert!(dispatch_lcu_event("/lol-matchmaking/v1/ready-check") == Some(Route::ReadyCheck));
    assert!(dispatch_lcu_event("/lol-gameflow/v1/gameflow-phase") == Some(Route::Gameflow));
    assert!(dispatch_lcu_event("/lol-honor-v2/v1/ballot") == Some(Route::HonorBallot));
    assert!(dispatch_lcu_event("/lol-champ-select/v1/session") == Some(Route::ChampSelect));
    assert!(dispatch_lcu_event("/lol-lobby/v2/lobby") == Some(Route::Lobby));
    assert!(dispatch_lcu_event("/lol-lobby/v2/lobby/members").is_none());
}

#[test]
fn the_data_of_an_event() {
    assert!(event_data(&json("{\"data\":{}}")).is_some());
    assert_eq!(event_data(&json("{\"data\":\"x\"}")).unwrap().as_str(), Some("x"));
    assert!(event_data(&json("{\"data\":[]}")).is_none());
    assert!(event_data(&json("{}")).is_none());
}

const IN_PROGRESS: &str = "{\"data\":{\"state\":\"InProgress\",\"playerResponse\":\"None\",\"id\":7}}";

fn pending(s: &mut ReadyCheckState) -> PendingAccept {
    s.handle_ready_check(&AppConfig::default(), &json(IN_PROGRESS)).unwrap()
}

#[test]
fn a_check_is_accepted_once() {
    let mut s = ReadyCheckState::new();
    let p = pending(&mut s);
    assert!(p.delay_secs == 5 && p.event_id == Some(7) && p.generation == 0);
    assert!(s.handle_ready_check(&AppConfig::default(), &json(IN_PROGRESS)).is_none());
    assert!(s.after_delay(&p));
    assert!(s.after_check(&p, &Ok(json("{\"state\":\"InProgress\",\"id\":7}"))));
    s.after_accept();
    assert!(!s.pending_accept);
}

#[test]
fn a_check_that_is_over_is_not_accepted() {
    for over in [
        "{\"data\":{\"state\":\"Invalid\"}}",
        "{\"data\":{}}",
        "{\"data\":{\"state\":\"InProgress\",\"playerResponse\":\"Declined\"}}",
        "{\"data\":\"x\"}",
    ] {
        let mut s = ReadyCheckState::new();
        let p = pending(&mut s);
        assert!(s.handle_ready_check(&AppConfig::default(), &json(over)).is_none());
        assert!(!s.after_delay(&p));
        let next = pending(&mut s);
        assert!(!s.after_delay(&p));
        assert!(s.after_delay(&next));
    }
}

#[test]
fn a_check_is_looked_at_once_more() {
    let answers: Vec<(Result<Json, LcuApiError>, bool)> = vec![
        (Ok(json("{\"state\":\"InProgress\"}")), true),
        (Ok(json("{\"state\":\"InProgress\",\"id\":8}")), false),
        (Ok(json("{\"state\":\"Invalid\",\"id\":7}")), false),
        (Ok(json("{}")), false),
        (Err(LcuApiError::Other(String::new())), false),
    ];
    for (answer, expected) in answers {
        let mut s = ReadyCheckState::new();
        let p = pending(&mut s);
        assert_eq!(s.after_check(&p, &answer), expected);
        assert_eq!(s.pending_accept, expected);
    }
}

#[test]
fn checks_without_reaction() {
    let mut s = ReadyCheckState::new();
    let mut config = AppConfig::default();
    config.auto_accept_enabled = false;
    assert!(s.handle_ready_check(&config, &json(IN_PROGRESS)).is_none());
    assert!(s == ReadyCheckState::new());
    assert!(s.handle_ready_check(&config, &json("{\"data\":null}")).is_none());
    assert!(s == ReadyCheckState::new());
}

#[test]
fn the_overlay_follows_the_phase() {
    let config = AppConfig::default();
    let mut s = RuntimeState::new();
    let mut run = |phase: &str, forced: bool| {
        let r = handle_gameflow(&mut s, &config, forced, &json(&format!("{{\"data\":{}}}", phase)));
        (r.phase, names(&r.commands), r.show_status, r.analyze)
    };
    let commands = |v: &[&str]| v.iter().map(|s| s.to_string()).collect::<Vec<String>>();
    assert_eq!(run("\"None\"", false), ("None".to_string(), commands(&["hide", "clear"]), true, false));
    assert_eq!(run("\"None\"", true), ("None".to_string(), commands(&["clear"]), true, false));
    assert_eq!(run("7", false).0, "None");
    assert_eq!(run("\"Lobby\"", false), ("Lobby".to_string(), commands(&["show", "clear"]), true, false));
    assert_eq!(
        run("\"ChampSelect\"", false),
        ("ChampSelect".to_string(), commands(&["show", "fix"]), false, false)
    );
    assert_eq!(
        run("\"InProgress\"", false),
        ("InProgress".to_string(), commands(&["show", "fix"]), false, true)
    );
    assert!(!run("\"GameStart\"", false).3);
    run("\"Lobby\"", false);
    assert!(run("\"GameStart\"", false).3);
}

#[test]
fn a_game_is_not_analyzed_where_it_is_not_wanted() {
    let mut config = AppConfig::default();
    config.premade_ingame = false;
    let mut s = RuntimeState::new();
    assert!(!handle_gameflow(&mut s, &config, false, &json("{\"data\":\"InProgress\"}")).analyze);
    assert!(!s.premade_ingame_done);
}

#[test]
fn a_session_without_players() {
    let player = || vec![("p".to_string(), "P".to_string())];
    assert!(!has_players(&vec![], &vec![]));
    assert!(has_players(&player(), &vec![]));
    assert!(has_players(&vec![], &player()));
    assert!(has_players(&player(), &player()));
}

#[test]
fn the_state_in_words() {
    let session = json("{\"gameData\":{\"queue_info\":{\"description\":\"ARAM\"}}}");
    assert_eq!(status_message("Lobby", Some(&session)), "状态: Lobby");
    assert_eq!(status_message("Matchmaking", Some(&session)), "状态: Matchmaking (ARAM)");
    assert_eq!(status_message("ReadyCheck", Some(&json("{}"))), "状态: ReadyCheck");
    assert_eq!(status_message("ReadyCheck", None), "状态: ReadyCheck");
    assert!(status_needs_session("Matchmaking") && !status_needs_session("Lobby"));
}

#[test]
fn a_session_of_champion_select() {
    let config = AppConfig::default();
    let mut s = RuntimeState::new();
    let event = json("{\"data\":{\"benchEnabled\":true,\"benchChampionIds\":[4],\"myTeam\":[{\"puuid\":\"p\",\"summonerName\":\"N\",\"championId\":2,\"team\":200}]}}");
    let (commands, teams) = handle_champ_select(&mut s, &config, false, &event);
    assert_eq!(names(&commands), vec!["show", "bench true"]);
    let teams = teams.unwrap();
    assert_eq!(teams.mine, vec![("p".to_string(), "N".to_string(), 2)]);
    assert!(teams.theirs.is_empty());
    assert_eq!((teams.my_side, teams.their_side), (Some(200), None));
    assert_eq!(s.current_bench_ids, vec![4]);
    assert!(handle_champ_select(&mut s, &config, false, &event).1.is_none());
    let (commands, _) = handle_champ_select(&mut s, &config, false, &json("{\"data\":{}}"));
    assert_eq!(names(&commands), vec!["show", "bench false"]);
    assert!(s.current_bench_ids.is_empty());
    let (commands, _) = handle_champ_select(&mut s, &config, true, &json("{\"data\":{}}"));
    assert_eq!(names(&commands), vec!["show", "bench true"]);
    let (commands, teams) = handle_champ_select(&mut s, &config, true, &json("{}"));
    assert!(commands.is_empty() && teams.is_none());
}

#[test]
fn the_board_of_ratings() {
    let mut b = Board::new(vec!["A".to_string(), "B".to_string()], vec![]);
    assert_eq!(b.message(), "[我方评分]\n-- A 评分:加载中...\n-- B 评分:加载中...\n");
    b.mine.set(1, rating_line("小代", "B", "31", "4.0"));
    assert_eq!(b.message(), "[我方评分]\n-- A 评分:加载中...\n小代 B 评分:31 KDA:4.0\n");
    let mut b = Board::new(vec![], vec!["C".to_string()]);
    b.theirs.set(0, failure_line("C"));
    assert_eq!(b.message(), "[我方评分]\n\n\n[对方评分]\n-- C 评分:获取失败\n");
}

#[test]
fn a_vote_is_skipped_once() {
    let mut s = HonorState::new();
    let config = AppConfig::default();
    let ballot = json("{\"data\":{\"gameId\":5}}");
    assert_eq!(s.handle_honor_ballot(&config, &ballot), (true, Some(5)));
    assert!(!s.after_skip(Some(5), &Ok(false)));
    assert!(!s.after_skip(Some(5), &Err(LcuApiError::Other(String::new()))));
    assert_eq!(s.handle_honor_ballot(&config, &ballot), (true, Some(5)));
    assert!(s.after_skip(Some(5), &Ok(true)));
    assert_eq!(s.handle_honor_ballot(&config, &ballot), (false, Some(5)));
    assert_eq!(s.handle_honor_ballot(&config, &json("{\"data\":{\"gameId\":6}}")), (true, Some(6)));
    assert_eq!(s.handle_honor_ballot(&config, &json("{}")), (true, None));
    let mut off = config;
    off.auto_honor_skip = false;
    assert!(!s.handle_honor_ballot(&off, &json("{}")).0);
}

#[test]
fn the_last_screen_is_clicked_away() {
    assert!(HonorState::continue_in(&Ok("EndOfGame".to_string())));
    assert!(!HonorState::continue_in(&Ok("PreEndOfGame".to_string())));
    assert!(!HonorState::continue_in(&Err(LcuApiError::Other(String::new()))));
    let mut s = HonorState::new();
    s.after_continue(Some(3), false);
    assert_eq!(s.last_post_honor_continue_game_id, None);
    s.after_continue(Some(3), true);
    assert_eq!(s.last_post_honor_continue_game_id, Some(3));
}

#[test]
fn clicks_on_slots() {
    let mut s = RuntimeState::new();
    let mut generation = 0;
    assert!(matches!(handle_overlay_click(&mut s, &mut generation, 0), ClickReaction::Ignore));
    assert_eq!(generation, 0);
    s.current_bench_ids = vec![10, 20];
    let first = match handle_overlay_click(&mut s, &mut generation, 1) {
        ClickReaction::Start(p, c) => {
            assert_eq!(name(&c), "select 1");
            p
        }
        _ => panic!("an attempt begins"),
    };
    assert!(first.champion_id == 20 && first.is_current(generation));
    let second = match handle_overlay_click(&mut s, &mut generation, 0) {
        ClickReaction::Start(p, _) => p,
        _ => panic!("an attempt begins"),
    };
    assert!(!first.is_current(generation) && second.is_current(generation));
    assert!(first.finish(&mut s, generation).is_none());
    assert_eq!(s.active_pick_slot, Some(0));
    match handle_overlay_click(&mut s, &mut generation, 0) {
        ClickReaction::Cancel(c) => assert_eq!(name(&c), "unselect"),
        _ => panic!("the attempt is given up"),
    }
    assert_eq!(s.active_pick_slot, None);
    assert!(!second.is_current(generation));
    let third = match handle_overlay_click(&mut s, &mut generation, 0) {
        ClickReaction::Start(p, _) => p,
        _ => panic!("an attempt begins"),
    };
    assert_eq!(name(&third.finish(&mut s, generation).unwrap()), "unselect");
    assert_eq!(s.active_pick_slot, None);
}

#[test]
fn an_attempt_goes_on_while_there_is_hope() {
    let p = Pick { champion_id: 5, generation: 1 };
    assert!(p.loop_pick_until_refresh(&Ok(json("{\"benchChampionIds\":[5]}"))));
    assert!(!p.loop_pick_until_refresh(&Ok(json("{\"benchChampionIds\":[6]}"))));
    assert!(!p.loop_pick_until_refresh(&Ok(json(
        "{\"benchChampionIds\":[5],\"localPlayerCellId\":0,\"myTeam\":[{\"cellId\":0,\"championId\":5}]}"
    ))));
    assert!(!p.loop_pick_until_refresh(&Err(LcuApiError::Other(String::new()))));
}
