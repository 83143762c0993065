//! What a player's rating is based on, and the services around it.

use lol_lcu::app::config::AppConfig;
use lol_lcu::app::event::AppEvent;
use lol_lcu::app::histories::Histories;
use lol_lcu::app::prophet::{akari_stats, get_grade_name, rating_basis, RatingBasis};
use lol_lcu::app::scout::{ingame_teams, scout_player, RatingText, ScoutService};
use lol_lcu::app::sniper::{SnipeEnd, SnipeStep, SniperService};
use lol_lcu::app::tasks::{
    get_lcu_ux_memory_mb, is_safe_phase, memory_check_due, memory_reload_due, window_event,
    ProcessMemory, ONE_BITS,
};
use lol_lcu::json::{parse, Json, Number};
use lol_lcu::lcu::api::{LcuApiError, LcuClient};
use lol_lcu::win::winapi::Rect;
use std::collections::HashMap;

fn list(s: &str) -> Vec<Json> {
    match parse(s).unwrap() {
        Json::Array(v) => v,
        _ => panic!("a list"),
    }
}

#[test]
fn grades() {
    let grades = [
        (45, "通天代"),
        (35, "通天代"),
        (34, "小代"),
        (31, "小代"),
        (30, "上等马"),
        (27, "上等马"),
        (26, "中等马"),
        (23, "中等马"),
        (22, "下等马"),
        (19, "下等马"),
        (18, "纯牛马"),
        (15, "纯牛马"),
        (14, "没有马"),
        (-3, "没有马"),
    ];
    for (score, grade) in grades {
        assert_eq!(get_grade_name(score), grade);
    }
}

const DETAILED: &str = "[{\"gameDuration\":1200,\"participantIdentities\":[{\"participantId\":1,\"player\":{\"puuid\":\"x\"}},{\"participantId\":2,\"player\":{\"puuid\":\"me\"}}],\"participants\":[{\"participantId\":1,\"teamId\":100,\"stats\":{\"kills\":4,\"goldEarned\":9000,\"totalDamageTaken\":5}},{\"participantId\":2,\"teamId\":100,\"stats\":{\"kills\":3,\"deaths\":2,\"assists\":5,\"win\":true,\"totalDamageDealtToChampions\":1000,\"totalDamageTaken\":50,\"goldEarned\":8000,\"totalMinionsKilled\":100,\"neutralMinionsKilled\":7}},{\"participantId\":3,\"teamId\":200,\"stats\":{\"kills\":9}}]}]";

#[test]
fn detailed_games() {
    let games = list(DETAILED);
    let stats = akari_stats("me", &games).unwrap();
    assert_eq!(stats.len(), 1);
    let g = &stats[0];
    assert_eq!(g.duration, Some(Number::Unsigned(1200)));
    assert_eq!(g.own.kills, Some(Number::Unsigned(3)));
    assert_eq!(g.own.deaths, Some(Number::Unsigned(2)));
    assert_eq!(g.own.assists, Some(Number::Unsigned(5)));
    assert!(g.own.win);
    assert_eq!(g.own.damage, Some(Number::Unsigned(1000)));
    assert_eq!(g.own.damage_taken, Some(Number::Unsigned(50)));
    assert_eq!(g.own.gold, Some(Number::Unsigned(8000)));
    assert_eq!(g.own.minions, Some(Number::Unsigned(100)));
    assert_eq!(g.own.neutral_minions, Some(Number::Unsigned(7)));
    assert_eq!(g.team.len(), 2);
    assert_eq!(g.team[0].kills, Some(Number::Unsigned(4)));
    assert_eq!(g.team[0].damage, None);
    assert_eq!(g.team[1].gold, Some(Number::Unsigned(8000)));
    assert!(akari_stats("stranger", &games).is_none());
    assert!(akari_stats("me", &vec![]).is_none());
    assert!(matches!(rating_basis("me", &games), Some(RatingBasis::Detailed(v)) if v.len() == 1));
}

#[test]
fn without_details_the_first_participant_counts() {
    let games = list("[{\"participants\":[{\"stats\":{\"kills\":1,\"win\":true}}]},{\"participants\":[{\"stats\":{}}]}]");
    match rating_basis("me", &games) {
        Some(RatingBasis::Summary(v)) => {
            assert_eq!(v.len(), 2);
            assert_eq!(v[0].kills, Some(Number::Unsigned(1)));
            assert!(v[0].win && !v[1].win);
            assert_eq!(v[1].kills, None);
        }
        _ => panic!("a summary"),
    }
    assert!(matches!(rating_basis("stranger", &list(DETAILED)), Some(RatingBasis::Summary(v)) if v.len() == 1));
    assert!(rating_basis("me", &vec![]).is_none());
    assert!(rating_basis("me", &list("[{\"participants\":[]}]")).is_none());
    assert!(rating_basis("me", &list("[{\"participants\":[{}]}]")).is_none());
    assert!(rating_basis("me", &list("[{}]")).is_none());
}

fn rating() -> RatingText {
    RatingText {
        whole_score: 28,
        score: "28".to_string(),
        kda: "3.5".to_string(),
        win_rate: "50".to_string(),
    }
}

#[test]
fn the_line_of_a_player() {
    assert_eq!(scout_player("A", &Some(rating())), "上等马 A 评分:28 KDA:3.5 胜率:50%");
    assert_eq!(scout_player("A", &None), "-- A 评分:获取失败");
}

#[test]
fn all_players_are_looked_at() {
    let s = ScoutService::new();
    let mine = vec![("a".to_string(), "A".to_string()), ("b".to_string(), "B".to_string())];
    let theirs = vec![("c".to_string(), "C".to_string())];
    let jobs = s.execute_full_scout(&mine, &theirs);
    let seen: Vec<(&str, &str, bool)> =
        jobs.iter().map(|j| (j.puuid.as_str(), j.name.as_str(), j.is_enemy)).collect();
    assert_eq!(seen, vec![("a", "A", false), ("b", "B", false), ("c", "C", true)]);
    match s.player_result(&jobs[2], &None, false) {
        Some(AppEvent::ScoutResult { puuid, content, is_premade, is_enemy }) => {
            assert_eq!(puuid, "c");
            assert_eq!(content, "-- C 评分:获取失败");
            assert!(!is_premade && is_enemy);
        }
        _ => panic!("a result"),
    }
    assert!(s.player_result(&jobs[0], &Some(rating()), true).is_none());
    match s.premade_result(&mine, &theirs, &Histories::new(), Some(200), Some(100), false) {
        Some(AppEvent::ScoutResult { puuid, content, is_premade, is_enemy }) => {
            assert_eq!(puuid, "TEAM_PREMADE");
            assert_eq!(content, "[对局组黑分析]\n我方 🔴红队：未检测到预组队\n对方 🔵蓝队：未检测到预组队");
            assert!(is_premade && !is_enemy);
        }
        _ => panic!("a result"),
    }
    assert!(s.premade_result(&mine, &theirs, &Histories::new(), None, None, true).is_none());
}

#[test]
fn the_players_of_the_running_game() {
    let session = parse("{\"gameData\":{\"teamOne\":[{\"puuid\":\"a\",\"summonerName\":\"A\"}],\"teamTwo\":[{\"puuid\":\"b\",\"summonerName\":\"B\"}]}}").unwrap();
    let (mine, theirs, my_side, their_side) =
        ingame_teams(&session, &parse("{\"puuid\":\"b\"}").unwrap(), &HashMap::new()).unwrap();
    assert_eq!(mine, vec![("b".to_string(), "B".to_string())]);
    assert_eq!(theirs, vec![("a".to_string(), "A".to_string())]);
    assert_eq!((my_side, their_side), (200, 100));
    assert!(ingame_teams(&parse("{}").unwrap(), &Json::Null, &HashMap::new()).is_none());
}

#[test]
fn sniping_ends() {
    let s = SniperService::new(5, 3);
    assert!(s.start_sniping(false) == SnipeStep::Swap);
    assert!(s.start_sniping(true) == SnipeStep::End(SnipeEnd::Cancelled));
    assert!(s.after_wait(false) == SnipeStep::Check);
    assert!(s.after_wait(true) == SnipeStep::End(SnipeEnd::Cancelled));
    let session = |t: &str| s.after_session(&Ok(parse(t).unwrap()));
    assert!(session("{\"benchChampionIds\":[5]}") == SnipeStep::Swap);
    assert!(session("{\"benchChampionIds\":[6]}") == SnipeStep::End(SnipeEnd::Gone));
    assert!(
        session("{\"benchChampionIds\":[5],\"localPlayerCellId\":1,\"myTeam\":[{\"cellId\":1,\"championId\":5}]}")
            == SnipeStep::End(SnipeEnd::Got)
    );
    assert!(
        s.after_session(&Err(LcuApiError::Other(String::new()))) == SnipeStep::End(SnipeEnd::NoSession)
    );
    assert!(matches!(s.finished(), AppEvent::SniperFinished(3)));
    let client = LcuClient { base_url: String::new() };
    assert_eq!(s.swap_request(&client).endpoint, "/lol-champ-select/v1/session/bench/swap/5");
}

#[test]
fn memory_is_checked_rarely() {
    let mut config = AppConfig::default();
    assert!(memory_check_due(&config, None));
    assert!(!memory_check_due(&config, Some(1799)));
    assert!(memory_check_due(&config, Some(1800)));
    config.memory_monitor = false;
    assert!(!memory_check_due(&config, None));
}

#[test]
fn the_interface_is_reloaded_in_safe_phases() {
    for phase in ["None", "Lobby", "Matchmaking", "EndOfGame", ""] {
        assert!(is_safe_phase(phase));
        assert!(memory_reload_due(&Ok(phase.to_string()), 1500, 1500));
        assert!(!memory_reload_due(&Ok(phase.to_string()), 1499, 1500));
        assert!(!memory_reload_due(&Ok(phase.to_string()), 0, 0));
    }
    for phase in ["ChampSelect", "InProgress", "ReadyCheck", "lobby"] {
        assert!(!memory_reload_due(&Ok(phase.to_string()), 9000, 1500));
    }
    assert!(!memory_reload_due(&Err(LcuApiError::Other(String::new())), 9000, 1500));
}

#[test]
fn the_memory_of_the_interface() {
    let p = |name: &str, bytes: u64| ProcessMemory { name: name.to_string(), bytes };
    assert_eq!(
        get_lcu_ux_memory_mb(&vec![
            p("LeagueClient.exe", 9 * 1048576),
            p("LeagueClientUx.exe", 3 * 1048576 - 1),
            p("LeagueClientUxRender.exe", 7 * 1048576),
        ]),
        2
    );
    assert_eq!(get_lcu_ux_memory_mb(&vec![]), 0);
}

#[test]
fn the_position_of_the_window() {
    let r = Rect { left: 10, top: 20, right: 1290, bottom: 740 };
    match window_event(&r, ONE_BITS) {
        AppEvent::WindowRectUpdated { x, y, width, height, zoom_scale } => {
            assert_eq!((x, y, width, height), (10, 20, 1280, 720));
            assert_eq!(f64::from_bits(zoom_scale), 1.0);
        }
        _ => panic!("a position"),
    }
}
