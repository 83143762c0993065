//! Loot, missions and chests.

use lol_lcu::app::handlers::loot::{claim_requests, handle_find_forgotten_loot, loot_dialog};
use lol_lcu::app::loot::{
    auto_claim_missions, auto_open_free_loot, claimed_count, craft_plan, find_free_open_recipe,
    free_recipe_fits, open_chest, opened_total, plan_crafts, read_chest, run_auto_loot, Chest,
    Craft, LootReport,
};
use lol_lcu::json::{json_eq, parse, Json};
use lol_lcu::lcu::api::{LcuApiError, LcuClient};

fn list(s: &str) -> Vec<Json> {
    match parse(s).unwrap() {
        Json::Array(v) => v,
        _ => panic!("a list"),
    }
}

const LOOT: &str = "[{\"lootId\":\"REWARD_1\",\"count\":2,\"localizedName\":\"One\"},{\"lootId\":\"CHEST_2\",\"count\":1,\"localizedDescription\":\"Two\"},{\"lootId\":\"CURRENCY_champion_faceoff\",\"count\":30},{\"lootId\":\"X_REWARD\",\"count\":1},{\"lootId\":\"CHEST_3\",\"count\":0},{\"lootId\":\"SKIN\",\"count\":4},{\"count\":9}]";

#[test]
fn forgotten_loot() {
    let found = handle_find_forgotten_loot(&parse(LOOT).unwrap()).unwrap();
    let seen: Vec<(&str, &str, &str, i64)> = found
        .iter()
        .map(|c| (c.loot_id.as_str(), c.name.as_str(), c.recipe.as_str(), c.count))
        .collect();
    assert_eq!(
        seen,
        vec![
            ("REWARD_1", "One", "REWARD_claim", 2),
            ("CHEST_2", "Two", "CHEST_generic_OPEN", 1),
            ("CURRENCY_champion_faceoff", "CURRENCY_champion_faceoff", "REWARD_claim", 30),
            ("X_REWARD", "X_REWARD", "REWARD_claim", 1),
        ]
    );
    let client = LcuClient { base_url: String::new() };
    assert!(claim_requests(&client, &found, false).is_empty());
    let requests = claim_requests(&client, &found, true);
    assert_eq!(requests.len(), 4);
    assert_eq!(requests[1].endpoint, "/lol-loot/v1/recipes/CHEST_generic_OPEN/craft?repeat=1");
    assert!(json_eq(requests[1].body.as_ref().unwrap(), &parse("[\"CHEST_2\"]").unwrap()));
    assert!(handle_find_forgotten_loot(&parse("{}").unwrap()).is_none());
}

#[test]
fn the_question_about_loot() {
    let found = handle_find_forgotten_loot(&parse(LOOT).unwrap()).unwrap();
    let d = loot_dialog(&found);
    assert!(d.asks);
    assert_eq!(d.caption, "找回遗忘的东西");
    assert_eq!(
        d.text,
        "发现以下可领取资源：\n\n - One (数量: 2)\n - Two (数量: 1)\n - CURRENCY_champion_faceoff (数量: 30)\n - X_REWARD (数量: 1)\n\n是否立即找回？"
    );
    let d = loot_dialog(&vec![]);
    assert!(!d.asks);
    assert_eq!(d.caption, "战利品检查");
    assert_eq!(d.text, "没有发现可领取的遗忘资源。");
}

#[test]
fn completed_missions() {
    let found = auto_claim_missions(&Ok(list(
        "[{\"id\":\"a\",\"status\":\"COMPLETED\",\"title\":\"A\"},{\"id\":\"b\",\"status\":\"PENDING\"},{\"status\":\"COMPLETED\"},{\"id\":\"c\",\"status\":\"COMPLETED\"},{\"id\":4,\"status\":\"COMPLETED\"}]",
    )));
    let seen: Vec<(&str, &str)> = found.iter().map(|m| (m.id.as_str(), m.title.as_str())).collect();
    assert_eq!(seen, vec![("a", "A"), ("c", "c")]);
    assert!(auto_claim_missions(&Err(refused())).is_empty());
    assert!(auto_claim_missions(&Ok(vec![])).is_empty());
}

fn refused() -> LcuApiError {
    LcuApiError::Other("refused".to_string())
}

#[test]
fn a_failed_claim_does_not_count() {
    assert_eq!(claimed_count(&vec![]), 0);
    assert_eq!(claimed_count(&vec![Err(refused())]), 0);
    assert_eq!(claimed_count(&vec![Ok(Json::Null), Err(refused()), Ok(Json::Null)]), 2);
}

#[test]
fn chests_with_their_largest_count() {
    let found = auto_open_free_loot(&Ok(list(
        "[{\"lootId\":\"c1\",\"count\":2,\"displayCategories\":\"chest\"},{\"lootId\":\"c2\",\"count\":1,\"displayCategories\":\"Event Chest,X\"},{\"lootId\":\"c1\",\"count\":5,\"displayCategories\":\"CHEST\"},{\"lootId\":\"c1\",\"count\":3,\"displayCategories\":\"CHEST\"},{\"lootId\":\"c3\",\"count\":0,\"displayCategories\":\"CHEST\"},{\"lootId\":\"c4\",\"count\":1,\"displayCategories\":\"SKIN\"},{\"lootId\":\"c5\",\"count\":1},{\"lootId\":\"c6\",\"count\":4294967296,\"displayCategories\":\"CHEST\"}]",
    )));
    let mut seen: Vec<(String, u32)> = found.iter().map(|c| (c.loot_id.clone(), c.count)).collect();
    seen.sort();
    assert_eq!(seen, vec![("c1".to_string(), 5), ("c2".to_string(), 1)]);
    assert!(auto_open_free_loot(&Err(refused())).is_empty());
}

#[test]
fn a_chest_by_its_categories() {
    let item = parse("{\"lootId\":\"c\",\"count\":3}").unwrap();
    assert!(read_chest(&item, "chest").is_none());
    let c = read_chest(&item, "A CHEST").unwrap();
    assert_eq!((c.loot_id.as_str(), c.count), ("c", 3));
}

#[test]
fn recipes_that_cost_nothing() {
    let recipes = list(
        "[{\"type\":\"disenchant\",\"slots\":[]},{\"type\":\"open\"},{\"type\":\"open\",\"slots\":[{\"lootIds\":[\"c\"]},{\"lootIds\":[\"key\"]}]},{\"type\":\"open\",\"slots\":[{\"lootIds\":[\"c\"],\"quantity\":2},{\"lootIds\":[\"c\",\"c\",5]}]},{\"type\":\"open\",\"slots\":[]}]",
    );
    let (ingredients, items) = find_free_open_recipe("c", &recipes).unwrap();
    assert_eq!(ingredients, vec!["c", "c", "c"]);
    assert_eq!(items, 3);
    let (ingredients, items) = find_free_open_recipe("d", &recipes).unwrap();
    assert_eq!(ingredients, vec!["d"]);
    assert_eq!(items, 1);
    assert!(find_free_open_recipe("c", &list("[{\"type\":\"open\",\"slots\":[{\"lootIds\":[]}]}]")).is_none());
    assert!(find_free_open_recipe("c", &list("[{\"type\":\"open\",\"slots\":[{\"lootIds\":[5]}]}]")).is_none());
    assert!(find_free_open_recipe("c", &vec![]).is_none());
    let zero = list("[{\"type\":\"open\",\"slots\":[{\"lootIds\":[\"c\"],\"quantity\":0}]}]");
    assert_eq!(find_free_open_recipe("c", &zero).unwrap().1, 1);
}

#[test]
fn how_many_chests_are_opened() {
    assert_eq!(craft_plan(7, 3), Some((2, 6)));
    assert_eq!(craft_plan(2, 3), None);
    assert_eq!(craft_plan(0, 1), None);
    assert_eq!(craft_plan(u32::MAX, 1), Some((u32::MAX, u32::MAX)));
}

fn chest(id: &str, count: u32) -> Chest {
    Chest { loot_id: id.to_string(), count }
}

const PAIRS: &str = "[{\"type\":\"open\",\"slots\":[{\"lootIds\":[\"c\"],\"quantity\":2}]}]";

#[test]
fn a_chest_is_opened_for_free() {
    let order = open_chest(&chest("c", 7), &Ok(list(PAIRS))).unwrap();
    assert_eq!(order.loot_id, "c");
    assert_eq!(order.ingredients, vec!["c", "c"]);
    assert_eq!((order.repeat, order.total), (3, 6));
    assert!(open_chest(&chest("c", 1), &Ok(list(PAIRS))).is_none());
    assert!(open_chest(&chest("d", 7), &Ok(list(PAIRS))).is_none());
    assert!(open_chest(&chest("c", 7), &Ok(vec![])).is_none());
    assert!(open_chest(&chest("c", 7), &Err(refused())).is_none());
}

#[test]
fn a_recipe_out_of_range() {
    let large = list(
        "[{\"type\":\"open\",\"slots\":[{\"lootIds\":[\"c\"],\"quantity\":4294967295},{\"lootIds\":[\"c\"]}]}]",
    );
    assert!(!free_recipe_fits("c", &large));
    assert!(free_recipe_fits("d", &large));
    assert!(free_recipe_fits("c", &list(PAIRS)));
    assert!(open_chest(&chest("c", u32::MAX), &Ok(large)).is_none());
}

fn orders() -> Vec<Craft> {
    let chests = vec![chest("c", 7), chest("d", 2), chest("e", 4), chest("f", 3)];
    let single = "[{\"type\":\"open\",\"slots\":[{\"lootIds\":[\"f\"]}]}]";
    let answers = vec![Ok(list(PAIRS)), Ok(list(PAIRS)), Err(refused()), Ok(list(single))];
    plan_crafts(&chests, &answers)
}

#[test]
fn each_free_chest_is_ordered_once() {
    let found = orders();
    let seen: Vec<(&str, u32, u32)> =
        found.iter().map(|c| (c.loot_id.as_str(), c.repeat, c.total)).collect();
    assert_eq!(seen, vec![("c", 3, 6), ("f", 3, 3)]);
    assert!(plan_crafts(&vec![], &vec![]).is_empty());
}

#[test]
fn only_what_was_opened_is_counted() {
    let found = orders();
    assert_eq!(opened_total(&found, &vec![Ok(Json::Null), Ok(Json::Null)]), 9);
    assert_eq!(opened_total(&found, &vec![Err(refused()), Ok(Json::Null)]), 3);
    assert_eq!(opened_total(&found, &vec![Err(refused()), Err(refused())]), 0);
    assert_eq!(opened_total(&vec![], &vec![]), 0);
}

#[test]
fn the_rewards_after_a_game() {
    let claims = vec![Ok(Json::Null), Err(refused())];
    let report = run_auto_loot(&claims, &orders(), &vec![Ok(Json::Null), Err(refused())]);
    assert_eq!(report, LootReport { claimed: 1, opened: 6 });
    assert_eq!(run_auto_loot(&vec![], &vec![], &vec![]), LootReport { claimed: 0, opened: 0 });
}
