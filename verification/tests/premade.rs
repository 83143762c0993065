//! Premade groups, from the players' histories.

use lol_lcu::app::histories::{
    collect_histories, count_common_games, read_game_wins, GameWins, Histories,
};
use lol_lcu::app::premade::{
    analyze_premade, calc_inferred_premade, extract_teams_from_gameflow_session,
    extract_teams_from_session, format_premade_message, PremadeGroup, TeamPremade,
};
use lol_lcu::json::parse;
use lol_lcu::lcu::api::LcuApiError;
use std::collections::HashMap;

fn wins(games: &[(i64, bool)]) -> GameWins {
    let mut w = GameWins::new();
    for (id, win) in games {
        w = w.insert(*id, *win);
    }
    w
}

fn team(players: &[(&str, &str)]) -> Vec<(String, String)> {
    players.iter().map(|(p, n)| (p.to_string(), n.to_string())).collect()
}

fn histories(entries: &[(&str, &[(i64, bool)])]) -> Histories {
    let mut h = Histories::new();
    for (p, games) in entries {
        h.insert(p.to_string(), wins(games));
    }
    h
}

#[test]
fn common_games_need_the_same_outcome() {
    let a = wins(&[(1, true), (2, false), (3, true)]);
    let b = wins(&[(3, true), (2, true), (1, true), (4, false)]);
    assert_eq!(count_common_games(Some(&a), Some(&b)), 2);
    assert_eq!(count_common_games(Some(&b), Some(&a)), 2);
    assert_eq!(count_common_games(Some(&a), None), 0);
    assert_eq!(count_common_games(None, None), 0);
    let c = wins(&[(1, true), (1, false)]);
    assert_eq!(c.get(1), Some(false));
    assert_eq!(count_common_games(Some(&a), Some(&c)), 0);
}

#[test]
fn common_games_have_bounds() {
    let a = wins(&[(1, true), (2, false), (3, true)]);
    let b = wins(&[(2, false), (3, false), (7, true), (8, true)]);
    assert_eq!(count_common_games(Some(&a), Some(&b)), 1);
    assert_eq!(count_common_games(Some(&a), Some(&a)), 3);
    assert_eq!(count_common_games(Some(&b), Some(&b)), 4);
    let other = wins(&[(1, false), (2, true), (3, false)]);
    assert_eq!(count_common_games(Some(&a), Some(&other)), 0);
}

#[test]
fn a_history_is_read() {
    let v = parse("{\"games\":{\"games\":[{\"gameId\":1,\"participants\":[{\"stats\":{\"win\":true}}]},{\"gameId\":2},{\"gameId\":\"x\"},{\"gameId\":3,\"participants\":[]}]}}").unwrap();
    let w = read_game_wins(&v);
    assert_eq!(w.get(1), Some(true));
    assert_eq!(w.get(2), Some(false));
    assert_eq!(w.get(3), Some(false));
    assert_eq!(w.get(4), None);
    let w = read_game_wins(&parse("{\"games\":[{\"gameId\":9}]}").unwrap());
    assert_eq!(w.get(9), Some(false));
    assert_eq!(read_game_wins(&parse("5").unwrap()).get(9), None);
}

#[test]
fn a_failed_history_is_empty() {
    let h = collect_histories(&vec![
        ("a".to_string(), Ok(parse("{\"games\":[{\"gameId\":9}]}").unwrap())),
        ("b".to_string(), Err(LcuApiError::Other(String::new()))),
    ]);
    assert_eq!(h.get("a").unwrap().get(9), Some(false));
    assert_eq!(h.get("b").unwrap().get(9), None);
    assert!(h.get("c").is_none());
}

#[test]
fn linked_players_form_a_group() {
    let h = histories(&[
        ("a", &[(1, true), (2, true), (3, true), (4, true)]),
        ("b", &[(1, true), (2, true), (3, true)]),
        ("c", &[(3, true), (4, true), (2, true)]),
        ("d", &[(1, false), (2, false), (3, false)]),
        ("e", &[]),
    ]);
    let t = team(&[("a", "Zoe"), ("d", "Dan"), ("b", "Ann"), ("e", "Eve"), ("c", "Cid")]);
    let r = calc_inferred_premade("我方", &t, &h, 3);
    assert_eq!(r.team_name, "我方");
    assert_eq!(r.groups.len(), 1);
    assert_eq!(r.groups[0].summoner_names, vec!["Ann", "Cid", "Zoe"]);
    assert_eq!(r.groups[0].times, 3);
}

#[test]
fn many_common_games_are_all_counted() {
    let games: Vec<(i64, bool)> = (0..1000).map(|id| (id, id % 2 == 0)).collect();
    let h = histories(&[("a", &games), ("b", &games)]);
    let r = calc_inferred_premade("x", &team(&[("a", "A"), ("b", "B")]), &h, 3);
    assert_eq!(r.groups.len(), 1);
    assert_eq!(r.groups[0].summoner_names, vec!["A", "B"]);
    assert_eq!(r.groups[0].times, 1000);
}

#[test]
fn larger_groups_come_first() {
    let h = histories(&[
        ("a", &[(1, true), (2, true)]),
        ("b", &[(1, true), (2, true)]),
        ("c", &[(5, true), (6, true), (7, true)]),
        ("d", &[(5, true), (6, true), (7, true)]),
        ("e", &[(5, true), (6, true), (7, true)]),
    ]);
    let t = team(&[("a", "A"), ("b", "B"), ("c", "C"), ("d", "D"), ("e", "E")]);
    let r = calc_inferred_premade("x", &t, &h, 2);
    assert_eq!(r.groups.len(), 2);
    assert_eq!(r.groups[0].summoner_names, vec!["C", "D", "E"]);
    assert_eq!(r.groups[0].times, 3);
    assert_eq!(r.groups[1].summoner_names, vec!["A", "B"]);
    assert_eq!(r.groups[1].times, 2);
}

#[test]
fn players_are_linked_through_others() {
    let h = histories(&[
        ("a", &[(1, true), (2, true), (3, false)]),
        ("b", &[(1, true), (2, true), (8, true), (9, true), (3, false)]),
        ("c", &[(8, true), (9, true)]),
    ]);
    let r = calc_inferred_premade("x", &team(&[("a", "A"), ("b", "B"), ("c", "C")]), &h, 2);
    assert_eq!(r.groups.len(), 1);
    assert_eq!(r.groups[0].summoner_names, vec!["A", "B", "C"]);
    assert_eq!(r.groups[0].times, 2);
}

#[test]
fn no_links_no_groups() {
    let h = histories(&[("a", &[(1, true)]), ("b", &[(1, false)])]);
    assert!(calc_inferred_premade("x", &team(&[("a", "A"), ("b", "B")]), &h, 1).groups.is_empty());
    assert!(calc_inferred_premade("x", &team(&[("a", "A")]), &h, 0).groups.is_empty());
    assert!(calc_inferred_premade("x", &team(&[]), &h, 0).groups.is_empty());
}

#[test]
fn a_threshold_of_zero_links_everybody() {
    let h = histories(&[]);
    let r = calc_inferred_premade("x", &team(&[("a", "B"), ("b", "A")]), &h, 0);
    assert_eq!(r.groups.len(), 1);
    assert_eq!(r.groups[0].summoner_names, vec!["A", "B"]);
    assert_eq!(r.groups[0].times, 0);
}

#[test]
fn both_teams_are_analyzed() {
    let h = histories(&[("a", &[(1, true)]), ("b", &[(1, true)]), ("c", &[(1, true)])]);
    let (mine, theirs) = analyze_premade(&team(&[("a", "A"), ("b", "B")]), &team(&[("c", "C")]), &h, 1);
    assert_eq!(mine.team_name, "我方");
    assert_eq!(theirs.team_name, "对方");
    assert_eq!(mine.groups.len(), 1);
    assert!(theirs.groups.is_empty());
}

#[test]
fn the_message_on_premade_groups() {
    let mine = TeamPremade {
        team_name: "我方".to_string(),
        groups: vec![
            PremadeGroup { summoner_names: vec!["A".to_string(), "B".to_string(), "C".to_string()], times: 4 },
            PremadeGroup { summoner_names: vec!["D".to_string(), "E".to_string()], times: 3 },
        ],
    };
    let theirs = TeamPremade { team_name: "对方".to_string(), groups: vec![] };
    assert_eq!(
        format_premade_message(&mine, &theirs, Some(100), Some(200)),
        "[对局组黑分析]\n我方 🔵蓝队：\n  3黑（4局）：A / B / C\n  2黑（3局）：D / E\n对方 🔴红队：未检测到预组队"
    );
    assert_eq!(
        format_premade_message(&theirs, &theirs, None, Some(7)),
        "[对局组黑分析]\n对方 ：未检测到预组队\n对方 ：未检测到预组队"
    );
}

#[test]
fn the_teams_of_a_champion_select() {
    let v = parse("{\"myTeam\":[{\"puuid\":\"p1\",\"summonerName\":\"N1\",\"championId\":3,\"team\":100},{\"puuid\":\"p2\",\"displayName\":\"N2\",\"championId\":0,\"championPickIntent\":7},{\"puuid\":\"\"},{\"puuid\":\"0abc\"},{\"puuid\":\"p3\",\"summonerName\":5},{}],\"theirTeam\":[{\"team\":200,\"puuid\":\"q\"}]}").unwrap();
    let (mine, theirs, my_side, their_side) = extract_teams_from_session(&v);
    assert_eq!(
        mine,
        vec![
            ("p1".to_string(), "N1".to_string(), 3),
            ("p2".to_string(), "N2".to_string(), 7),
            ("p3".to_string(), "p3".to_string(), 0),
        ]
    );
    assert_eq!(theirs, vec![("q".to_string(), "q".to_string(), 0)]);
    assert_eq!(my_side, Some(100));
    assert_eq!(their_side, Some(200));
    let (mine, theirs, my_side, their_side) = extract_teams_from_session(&parse("{}").unwrap());
    assert!(mine.is_empty() && theirs.is_empty() && my_side.is_none() && their_side.is_none());
}

#[test]
fn the_teams_of_a_game() {
    let mut names = HashMap::new();
    names.insert(1i64, "安妮".to_string());
    let v = parse("{\"gameData\":{\"teamOne\":[{\"puuid\":\"a\",\"summonerName\":\"A\",\"championId\":1}],\"teamTwo\":[{\"puuid\":\"b\",\"gameName\":\"B\",\"championId\":2},{\"puuid\":\"0\"}]}}").unwrap();
    let (mine, theirs, my_side, their_side) = extract_teams_from_gameflow_session(&v, "a", &names);
    assert_eq!(mine, team(&[("a", "A(安妮)")]));
    assert_eq!(theirs, team(&[("b", "B")]));
    assert_eq!((my_side, their_side), (Some(100), Some(200)));
    let (mine, theirs, my_side, their_side) = extract_teams_from_gameflow_session(&v, "b", &names);
    assert_eq!(mine, team(&[("b", "B")]));
    assert_eq!(theirs, team(&[("a", "A(安妮)")]));
    assert_eq!((my_side, their_side), (Some(200), Some(100)));
    let flat = parse("{\"teamOne\":[{\"puuid\":\"a\"}]}").unwrap();
    let (mine, _, my_side, _) = extract_teams_from_gameflow_session(&flat, "a", &names);
    assert_eq!(mine, team(&[("a", "a")]));
    assert_eq!(my_side, Some(100));
}
