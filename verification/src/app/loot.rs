//! Rewards that cost nothing: completed missions, and chests that open without a key.

use crate::json::{array_view, lemma_array_step, lemma_array_view, Json, JsonView};
use crate::lcu::api::LcuApiError;
use crate::text::{contains, has_infix, str_eq, uppercase, uppercase_of};
use vstd::prelude::*;

verus! {

/// The list that the client answered with, where it answered.
pub open spec fn fetched(answer: Result<Vec<Json>, LcuApiError>) -> Option<Seq<JsonView>> {
    match answer {
        Ok(items) => Some(array_view(items@)),
        Err(_) => None,
    }
}

/// A completed mission, with the title that it is shown under.
#[derive(Debug)]
pub struct Mission {
    pub id: String,
    pub title: String,
}

/// What a `Mission` holds.
pub struct MissionView {
    pub id: Seq<char>,
    pub title: Seq<char>,
}

impl View for Mission {
    type V = MissionView;

    open spec fn view(&self) -> MissionView {
        MissionView { id: self.id@, title: self.title@ }
    }
}

/// The views of some missions.
pub open spec fn mission_views(s: Seq<Mission>) -> Seq<MissionView> {
    Seq::new(s.len(), |i: int| s[i]@)
}

/// The mission, where it is completed and has an identifier. One without a title goes by
/// its identifier.
pub open spec fn completed(m: JsonView) -> Option<MissionView> {
    match m.text_field("id"@) {
        Some(id) => if m.text_field("status"@) == Some("COMPLETED"@) {
            Some(
                MissionView {
                    id,
                    title: match m.text_field("title"@) {
                        Some(t) => t,
                        None => id,
                    },
                },
            )
        } else {
            None
        },
        None => None,
    }
}

/// The completed missions, in their order.
pub open spec fn completed_missions(items: Seq<JsonView>) -> Seq<MissionView>
    decreases items.len(),
{
    if items.len() == 0 {
        Seq::empty()
    } else {
        match completed(items.last()) {
            Some(m) => completed_missions(items.drop_last()).push(m),
            None => completed_missions(items.drop_last()),
        }
    }
}

fn read_mission(m: &Json) -> (r: Option<Mission>)
    ensures
        completed(m@) == match r {
            Some(x) => Some(x@),
            None => None,
        },
{
    let is_completed = match m.get_str("status") {
        Some(s) => str_eq(s, "COMPLETED"),
        None => false,
    };
    if !is_completed {
        return None;
    }
    let id = match m.get_str("id") {
        Some(s) => s,
        None => {
            return None;
        },
    };
    let title = match m.get_str("title") {
        Some(s) => s,
        None => id,
    };
    Some(Mission { id: id.to_owned(), title: title.to_owned() })
}

/// The missions whose reward is to be claimed, one claim for each: none where the list could
/// not be had.
pub fn auto_claim_missions(answer: &Result<Vec<Json>, LcuApiError>) -> (r: Vec<Mission>)
    ensures
        mission_views(r@) == match fetched(*answer) {
            Some(items) => completed_missions(items),
            None => Seq::empty(),
        },
{
    let mut r: Vec<Mission> = Vec::new();
    assert(mission_views(r@) =~= Seq::empty());
    let missions = match answer {
        Ok(v) => v,
        Err(_) => {
            return r;
        },
    };
    proof {
        lemma_array_view(missions@);
        assert(array_view(missions@).subrange(0, 0) =~= Seq::empty());
    }
    let mut i: usize = 0;
    while i < missions.len()
        invariant
            i <= missions@.len(),
            array_view(missions@).len() == missions@.len(),
            mission_views(r@) == completed_missions(array_view(missions@).subrange(0, i as int)),
        decreases missions@.len() - i,
    {
        proof {
            lemma_array_step(missions@, i as int);
        }
        match read_mission(&missions[i]) {
            Some(m) => {
                let ghost before = mission_views(r@);
                r.push(m);
                assert(mission_views(r@) =~= before.push(m@));
            },
            None => {},
        }
        i += 1;
    }
    assert(array_view(missions@).subrange(0, missions@.len() as int) =~= array_view(missions@));
    r
}

/// How many of some requests the client carried out.
pub open spec fn ok_count(outcomes: Seq<Result<Json, LcuApiError>>) -> nat
    decreases outcomes.len(),
{
    if outcomes.len() == 0 {
        0
    } else if outcomes.last() is Ok {
        ok_count(outcomes.drop_last()) + 1
    } else {
        ok_count(outcomes.drop_last())
    }
}

/// How many rewards were claimed. A claim that failed does not count, and leaves the others
/// as they are.
pub fn claimed_count(outcomes: &Vec<Result<Json, LcuApiError>>) -> (r: usize)
    ensures
        r == ok_count(outcomes@),
        r <= outcomes@.len(),
{
    let mut r: usize = 0;
    let mut i: usize = 0;
    assert(outcomes@.subrange(0, 0) =~= Seq::empty());
    while i < outcomes.len()
        invariant
            r <= i <= outcomes@.len(),
            r == ok_count(outcomes@.subrange(0, i as int)),
        decreases outcomes@.len() - i,
    {
        assert(outcomes@.subrange(0, i + 1).drop_last() =~= outcomes@.subrange(0, i as int));
        if outcomes[i].is_ok() {
            r += 1;
        }
        i += 1;
    }
    assert(outcomes@.subrange(0, outcomes@.len() as int) =~= outcomes@);
    r
}

/// A chest, and how many of it there are.
#[derive(Debug)]
pub struct Chest {
    pub loot_id: String,
    pub count: u32,
}

/// How many of a chest a piece of loot stands for, given its categories in upper case; the
/// count is taken modulo the range of its type.
pub open spec fn chest(item: JsonView, categories: Seq<char>) -> Option<(Seq<char>, u32)> {
    let count = match item.field("count"@) {
        Some(v) => match v.unsigned() {
            Some(n) => n as u32,
            None => 0,
        },
        None => 0,
    };
    match item.text_field("lootId"@) {
        Some(id) => if count > 0 && has_infix(categories, "CHEST"@) {
            Some((id, count))
        } else {
            None
        },
        None => None,
    }
}

/// The categories of a piece of loot.
pub open spec fn categories_of(item: JsonView) -> Seq<char> {
    match item.text_field("displayCategories"@) {
        Some(s) => s,
        None => ""@,
    }
}

/// Reads a chest, given its categories in upper case.
pub fn read_chest(item: &Json, categories: &str) -> (r: Option<Chest>)
    ensures
        chest(item@, categories@) == match r {
            Some(c) => Some((c.loot_id@, c.count)),
            None => None,
        },
{
    let id = match item.get_str("lootId") {
        Some(s) => s,
        None => {
            return None;
        },
    };
    let count: u32 = match item.get("count") {
        Some(v) => match v.as_u64() {
            Some(n) => n as u32,
            None => 0,
        },
        None => 0,
    };
    if count > 0 && contains(categories, "CHEST") {
        Some(Chest { loot_id: id.to_owned(), count })
    } else {
        None
    }
}

/// The chests with one more: where it is listed already, the larger count stands.
pub open spec fn with_chest(m: Map<Seq<char>, u32>, id: Seq<char>, count: u32) -> Map<
    Seq<char>,
    u32,
> {
    if m.contains_key(id) && m[id] >= count {
        m
    } else {
        m.insert(id, count)
    }
}

/// The chests among some loot, each with the largest count that it is listed with.
pub open spec fn chests(items: Seq<JsonView>) -> Map<Seq<char>, u32>
    decreases items.len(),
{
    if items.len() == 0 {
        Map::empty()
    } else {
        let rest = chests(items.drop_last());
        match chest(items.last(), uppercase_of(categories_of(items.last()))) {
            Some(c) => with_chest(rest, c.0, c.1),
            None => rest,
        }
    }
}

/// The list holds exactly the chests of the map, each once.
pub open spec fn lists(s: Seq<Chest>, m: Map<Seq<char>, u32>) -> bool {
    &&& forall|i: int, j: int|
        0 <= i < j < s.len() ==> #[trigger] s[i].loot_id@ != #[trigger] s[j].loot_id@
    &&& forall|i: int|
        0 <= i < s.len() ==> m.contains_key(#[trigger] s[i].loot_id@) && m[s[i].loot_id@]
            == s[i].count
    &&& forall|id: Seq<char>| #[trigger]
        m.contains_key(id) ==> exists|i: int| 0 <= i < s.len() && #[trigger] s[i].loot_id@ == id
}

/// Enters a chest into a list.
fn enter(list: &mut Vec<Chest>, c: Chest, Ghost(m): Ghost<Map<Seq<char>, u32>>)
    requires
        lists(old(list)@, m),
    ensures
        lists(final(list)@, with_chest(m, c.loot_id@, c.count)),
{
    let ghost before = list@;
    let ghost after = with_chest(m, c.loot_id@, c.count);
    let mut i: usize = 0;
    while i < list.len()
        invariant
            i <= list@.len(),
            list@ == before,
            lists(before, m),
            after == with_chest(m, c.loot_id@, c.count),
            forall|k: int| 0 <= k < i ==> #[trigger] before[k].loot_id@ != c.loot_id@,
        decreases list@.len() - i,
    {
        if str_eq(list[i].loot_id.as_str(), c.loot_id.as_str()) {
            assert(m.contains_key(before[i as int].loot_id@));
            if list[i].count < c.count {
                let id = list[i].loot_id.clone();
                list.set(i, Chest { loot_id: id, count: c.count });
                assert(list@[i as int].loot_id@ == before[i as int].loot_id@);
                assert(forall|k: int|
                    0 <= k < before.len() ==> #[trigger] list@[k].loot_id@ == before[k].loot_id@);
                assert forall|id: Seq<char>| #[trigger] after.contains_key(id) implies exists|k: int|

                    0 <= k < list@.len() && #[trigger] list@[k].loot_id@ == id by {
                    assert(m.contains_key(id));
                    let k = choose|k: int|
                        0 <= k < before.len() && #[trigger] before[k].loot_id@ == id;
                    assert(list@[k].loot_id@ == id);
                }
                assert forall|k: int| 0 <= k < list@.len() implies after.contains_key(
                    #[trigger] list@[k].loot_id@,
                ) && after[list@[k].loot_id@] == list@[k].count by {
                    if k != i {
                        assert(list@[k] == before[k]);
                        assert(m.contains_key(before[k].loot_id@));
                    }
                }
            }
            return;
        }
        i += 1;
    }
    assert(!m.contains_key(c.loot_id@));
    let ghost id = c.loot_id@;
    list.push(c);
    assert(forall|k: int| 0 <= k < before.len() ==> #[trigger] list@[k] == before[k]);
    assert(list@.last().loot_id@ == id);
    assert forall|x: Seq<char>| #[trigger] after.contains_key(x) implies exists|k: int|
        0 <= k < list@.len() && #[trigger] list@[k].loot_id@ == x by {
        if x == id {
            assert(list@[before.len() as int].loot_id@ == x);
        } else {
            assert(m.contains_key(x));
            let k = choose|k: int| 0 <= k < before.len() && #[trigger] before[k].loot_id@ == x;
            assert(list@[k].loot_id@ == x);
        }
    }
    assert forall|k: int| 0 <= k < list@.len() implies after.contains_key(
        #[trigger] list@[k].loot_id@,
    ) && after[list@[k].loot_id@] == list@[k].count by {
        if k < before.len() {
            assert(list@[k] == before[k]);
            assert(m.contains_key(before[k].loot_id@));
            assert(before[k].loot_id@ != id);
        }
    }
}

/// The chests among the player's loot that may be opened: none where the loot could not be
/// had.
pub fn auto_open_free_loot(answer: &Result<Vec<Json>, LcuApiError>) -> (r: Vec<Chest>)
    ensures
        match fetched(*answer) {
            Some(items) => lists(r@, chests(items)),
            None => r@.len() == 0,
        },
{
    let mut r: Vec<Chest> = Vec::new();
    let loot = match answer {
        Ok(v) => v,
        Err(_) => {
            return r;
        },
    };
    proof {
        lemma_array_view(loot@);
        assert(array_view(loot@).subrange(0, 0) =~= Seq::empty());
    }
    let mut i: usize = 0;
    while i < loot.len()
        invariant
            i <= loot@.len(),
            array_view(loot@).len() == loot@.len(),
            lists(r@, chests(array_view(loot@).subrange(0, i as int))),
        decreases loot@.len() - i,
    {
        let ghost rest = chests(array_view(loot@).subrange(0, i as int));
        proof {
            lemma_array_step(loot@, i as int);
        }
        let categories = match loot[i].get_str("displayCategories") {
            Some(s) => s,
            None => "",
        };
        let upper = uppercase(categories);
        match read_chest(&loot[i], upper.as_str()) {
            Some(c) => {
                enter(&mut r, c, Ghost(rest));
            },
            None => {},
        }
        i += 1;
    }
    assert(array_view(loot@).subrange(0, loot@.len() as int) =~= array_view(loot@));
    r
}

/// A slot takes the chest itself and nothing else: it lists an identifier, and every one
/// that it lists is the chest's.
pub open spec fn takes_only(slot: JsonView, loot_id: Seq<char>) -> bool {
    match slot.items_field("lootIds"@) {
        Some(ids) => {
            &&& exists|i: int| 0 <= i < ids.len() && (#[trigger] ids[i]).text() is Some
            &&& forall|i: int|
                0 <= i < ids.len() ==> ((#[trigger] ids[i]).text() matches Some(id) ==> id
                    == loot_id)
        },
        None => false,
    }
}

/// How many a slot takes; the number is taken modulo the range of its type.
pub open spec fn quantity(slot: JsonView) -> u32 {
    match slot.field("quantity"@) {
        Some(v) => match v.unsigned() {
            Some(n) => n as u32,
            None => 1,
        },
        None => 1,
    }
}

/// How many some slots take together.
pub open spec fn total_quantity(slots: Seq<JsonView>) -> nat
    decreases slots.len(),
{
    if slots.len() == 0 {
        0
    } else {
        total_quantity(slots.drop_last()) + quantity(slots.last()) as nat
    }
}

/// A recipe opens the chest for nothing but the chest.
pub open spec fn opens_for_free(recipe: JsonView, loot_id: Seq<char>) -> bool {
    &&& recipe.text_field("type"@) == Some("open"@)
    &&& match recipe.items_field("slots"@) {
        Some(slots) => forall|i: int|
            0 <= i < slots.len() ==> takes_only(#[trigger] slots[i], loot_id),
        None => false,
    }
}

/// How many chests a recipe takes each time: at least one.
pub open spec fn per_craft(recipe: JsonView) -> nat {
    let n = total_quantity(recipe.items_field("slots"@)->0);
    if n == 0 {
        1
    } else {
        n
    }
}

/// The first recipe that opens the chest for free.
pub open spec fn first_free(recipes: Seq<JsonView>, loot_id: Seq<char>) -> Option<JsonView>
    decreases recipes.len(),
{
    if recipes.len() == 0 {
        None
    } else {
        match first_free(recipes.drop_last(), loot_id) {
            Some(r) => Some(r),
            None => if opens_for_free(recipes.last(), loot_id) {
                Some(recipes.last())
            } else {
                None
            },
        }
    }
}

fn slot_takes_only(slot: &Json, loot_id: &str) -> (r: bool)
    ensures
        r == takes_only(slot@, loot_id@),
{
    let ids = match slot.get_array("lootIds") {
        Some(v) => v,
        None => {
            return false;
        },
    };
    proof {
        lemma_array_view(ids@);
    }
    let ghost all = array_view(ids@);
    let mut found = false;
    let mut i: usize = 0;
    while i < ids.len()
        invariant
            i <= ids@.len(),
            all == array_view(ids@),
            all.len() == ids@.len(),
            forall|k: int| 0 <= k < ids@.len() ==> #[trigger] all[k] == ids@[k]@,
            slot@.items_field("lootIds"@) == Some(all),
            found ==> exists|k: int| 0 <= k < i && (#[trigger] all[k]).text() is Some,
            !found ==> forall|k: int| 0 <= k < i ==> (#[trigger] all[k]).text() is None,
            forall|k: int|
                0 <= k < i ==> ((#[trigger] all[k]).text() matches Some(id) ==> id == loot_id@),
        decreases ids@.len() - i,
    {
        assert(all[i as int] == ids@[i as int]@);
        match ids[i].as_str() {
            Some(id) => {
                if !str_eq(id, loot_id) {
                    return false;
                }
                found = true;
            },
            None => {},
        }
        i += 1;
    }
    found
}

fn slot_quantity(slot: &Json) -> (r: u32)
    ensures
        r == quantity(slot@),
{
    match slot.get("quantity") {
        Some(v) => match v.as_u64() {
            Some(n) => n as u32,
            None => 1,
        },
        None => 1,
    }
}

fn is_free(recipe: &Json, loot_id: &str) -> (r: bool)
    ensures
        r == opens_for_free(recipe@, loot_id@),
{
    let opens = match recipe.get_str("type") {
        Some(s) => str_eq(s, "open"),
        None => false,
    };
    if !opens {
        return false;
    }
    let slots = match recipe.get_array("slots") {
        Some(v) => v,
        None => {
            return false;
        },
    };
    proof {
        lemma_array_view(slots@);
    }
    let ghost all = array_view(slots@);
    let mut i: usize = 0;
    while i < slots.len()
        invariant
            i <= slots@.len(),
            all == array_view(slots@),
            all.len() == slots@.len(),
            forall|k: int| 0 <= k < slots@.len() ==> #[trigger] all[k] == slots@[k]@,
            recipe@.items_field("slots"@) == Some(all),
            forall|k: int| 0 <= k < i ==> takes_only(#[trigger] all[k], loot_id@),
        decreases slots@.len() - i,
    {
        assert(all[i as int] == slots@[i as int]@);
        if !slot_takes_only(&slots[i], loot_id) {
            proof {
                let slots = recipe@.items_field("slots"@)->0;
                assert(!takes_only(slots[i as int], loot_id@));
            }
            return false;
        }
        i += 1;
    }
    true
}

proof fn lemma_total_grows(slots: Seq<JsonView>, i: int)
    requires
        0 <= i <= slots.len(),
    ensures
        total_quantity(slots.subrange(0, i)) <= total_quantity(slots),
    decreases slots.len() - i,
{
    if i < slots.len() {
        lemma_total_grows(slots, i + 1);
        assert(slots.subrange(0, i + 1).drop_last() =~= slots.subrange(0, i));
    } else {
        assert(slots.subrange(0, i) =~= slots);
    }
}

/// How many some slots take together, where the number is in range.
fn count_slots(slots: &Vec<Json>) -> (r: Option<u32>)
    ensures
        match r {
            Some(n) => n == total_quantity(array_view(slots@)),
            None => total_quantity(array_view(slots@)) > u32::MAX,
        },
{
    proof {
        lemma_array_view(slots@);
        assert(array_view(slots@).subrange(0, 0) =~= Seq::empty());
    }
    let mut total: u32 = 0;
    let mut i: usize = 0;
    while i < slots.len()
        invariant
            i <= slots@.len(),
            array_view(slots@).len() == slots@.len(),
            total == total_quantity(array_view(slots@).subrange(0, i as int)),
        decreases slots@.len() - i,
    {
        proof {
            lemma_array_step(slots@, i as int);
        }
        match total.checked_add(slot_quantity(&slots[i])) {
            Some(n) => {
                total = n;
            },
            None => {
                proof {
                    lemma_total_grows(array_view(slots@), i + 1);
                }
                return None;
            },
        }
        i += 1;
    }
    assert(array_view(slots@).subrange(0, slots@.len() as int) =~= array_view(slots@));
    Some(total)
}

/// The first recipe that opens a chest for nothing but the chest.
fn find_free<'a>(loot_id: &str, recipes: &'a Vec<Json>) -> (r: Option<&'a Json>)
    ensures
        first_free(array_view(recipes@), loot_id@) == match r {
            Some(recipe) => Some(recipe@),
            None => None,
        },
        r matches Some(recipe) ==> opens_for_free(recipe@, loot_id@),
{
    proof {
        lemma_array_view(recipes@);
        assert(array_view(recipes@).subrange(0, 0) =~= Seq::empty());
    }
    let mut found: Option<&'a Json> = None;
    let mut i: usize = 0;
    while i < recipes.len()
        invariant
            i <= recipes@.len(),
            array_view(recipes@).len() == recipes@.len(),
            first_free(array_view(recipes@).subrange(0, i as int), loot_id@) == match found {
                Some(recipe) => Some(recipe@),
                None => None,
            },
            found matches Some(recipe) ==> opens_for_free(recipe@, loot_id@),
        decreases recipes@.len() - i,
    {
        proof {
            lemma_array_step(recipes@, i as int);
        }
        if found.is_none() && is_free(&recipes[i], loot_id) {
            found = Some(&recipes[i]);
        }
        i += 1;
    }
    assert(array_view(recipes@).subrange(0, recipes@.len() as int) =~= array_view(recipes@));
    found
}

/// How many chests the first free recipe takes each time: nothing where there is no such
/// recipe, or where the number is out of range.
fn free_quantity(loot_id: &str, recipes: &Vec<Json>) -> (r: Option<u32>)
    ensures
        match first_free(array_view(recipes@), loot_id@) {
            Some(recipe) => match r {
                Some(n) => n == per_craft(recipe),
                None => per_craft(recipe) > u32::MAX,
            },
            None => r is None,
        },
{
    match find_free(loot_id, recipes) {
        Some(recipe) => match recipe.get_array("slots") {
            Some(slots) => match count_slots(slots) {
                Some(n) => Some(
                    if n == 0 {
                        1
                    } else {
                        n
                    },
                ),
                None => None,
            },
            None => None,
        },
        None => None,
    }
}

/// Whether `find_free_open_recipe` can be asked: the number of chests that the first free
/// recipe takes, where there is one, is in range.
pub fn free_recipe_fits(loot_id: &str, recipes: &Vec<Json>) -> (r: bool)
    ensures
        r == (first_free(array_view(recipes@), loot_id@) matches Some(recipe) ==> per_craft(recipe)
            <= u32::MAX),
{
    find_free(loot_id, recipes).is_none() || free_quantity(loot_id, recipes).is_some()
}

/// Finds the first recipe that opens a chest for nothing but the chest: what it is made of,
/// and how many chests that takes.
pub fn find_free_open_recipe(loot_id: &str, recipes: &Vec<Json>) -> (r: Option<
    (Vec<String>, u32),
>)
    requires
        first_free(array_view(recipes@), loot_id@) matches Some(recipe) ==> per_craft(recipe)
            <= u32::MAX,
    ensures
        match first_free(array_view(recipes@), loot_id@) {
            Some(recipe) => match r {
                Some((ingredients, items)) => {
                    &&& items == per_craft(recipe)
                    &&& ingredients@.len() == items
                    &&& forall|i: int|
                        0 <= i < ingredients@.len() ==> #[trigger] ingredients@[i]@ == loot_id@
                },
                None => false,
            },
            None => r is None,
        },
{
    let total: u32 = match free_quantity(loot_id, recipes) {
        Some(n) => n,
        None => {
            return None;
        },
    };
    let mut ingredients: Vec<String> = Vec::new();
    let mut n: u32 = 0;
    while n < total
        invariant
            n <= total,
            ingredients@.len() == n,
            forall|i: int| 0 <= i < n ==> #[trigger] ingredients@[i]@ == loot_id@,
        decreases total - n,
    {
        ingredients.push(loot_id.to_owned());
        n += 1;
    }
    Some((ingredients, total))
}

/// How often a recipe is used on a number of chests, and how many chests that opens:
/// nothing where there are too few.
pub fn craft_plan(count: u32, items_per_craft: u32) -> (r: Option<(u32, u32)>)
    requires
        items_per_craft > 0,
    ensures
        match r {
            Some((repeat, total)) => {
                &&& repeat > 0
                &&& total == repeat * items_per_craft
                &&& total <= count < total + items_per_craft
            },
            None => count < items_per_craft,
        },
{
    let repeat: u32 = count / items_per_craft;
    proof {
        vstd::arithmetic::div_mod::lemma_fundamental_div_mod(count as int, items_per_craft as int);
        assert(repeat * items_per_craft == items_per_craft * repeat) by (nonlinear_arith);
    }
    if repeat == 0 {
        assert(repeat * items_per_craft == 0) by (nonlinear_arith)
            requires
                repeat == 0,
        ;
        return None;
    }
    Some((repeat, repeat * items_per_craft))
}

/// An order to open a chest: what goes in each time, how often, and how many chests that
/// opens in all.
#[derive(Debug)]
pub struct Craft {
    pub loot_id: String,
    pub ingredients: Vec<String>,
    pub repeat: u32,
    pub total: u32,
}

/// What a `Craft` holds.
#[verifier::ext_equal]
pub struct CraftView {
    pub loot_id: Seq<char>,
    pub ingredients: Seq<Seq<char>>,
    pub repeat: u32,
    pub total: u32,
}

impl View for Craft {
    type V = CraftView;

    open spec fn view(&self) -> CraftView {
        CraftView {
            loot_id: self.loot_id@,
            ingredients: Seq::new(self.ingredients@.len(), |i: int| self.ingredients@[i]@),
            repeat: self.repeat,
            total: self.total,
        }
    }
}

/// The views of some orders.
pub open spec fn craft_views(s: Seq<Craft>) -> Seq<CraftView> {
    Seq::new(s.len(), |i: int| s[i]@)
}

/// The order that opens as many of a chest as its first free recipe can take: none without
/// recipes, without a free one among them, or with too few chests for it.
pub open spec fn opening(
    id: Seq<char>,
    count: u32,
    recipes: Option<Seq<JsonView>>,
) -> Option<CraftView> {
    match recipes {
        Some(list) => match first_free(list, id) {
            Some(recipe) => if per_craft(recipe) <= count {
                let repeat = count as nat / per_craft(recipe);
                Some(
                    CraftView {
                        loot_id: id,
                        ingredients: Seq::new(per_craft(recipe), |i: int| id),
                        repeat: repeat as u32,
                        total: (repeat * per_craft(recipe)) as u32,
                    },
                )
            } else {
                None
            },
            None => None,
        },
        None => None,
    }
}

/// The order that opens a chest for free, from the client's answer about its recipes.
pub fn open_chest(chest: &Chest, answer: &Result<Vec<Json>, LcuApiError>) -> (r: Option<Craft>)
    ensures
        opening(chest.loot_id@, chest.count, fetched(*answer)) == match r {
            Some(c) => Some(c@),
            None => None,
        },
{
    let recipes = match answer {
        Ok(v) => v,
        Err(_) => {
            return None;
        },
    };
    let id = chest.loot_id.as_str();
    if !free_recipe_fits(id, recipes) {
        return None;
    }
    match find_free_open_recipe(id, recipes) {
        Some((ingredients, items)) => match craft_plan(chest.count, items) {
            Some((repeat, total)) => {
                proof {
                    vstd::arithmetic::div_mod::lemma_fundamental_div_mod_converse(
                        chest.count as int,
                        items as int,
                        repeat as int,
                        chest.count - total,
                    );
                    assert(repeat * items >= items) by (nonlinear_arith)
                        requires
                            repeat > 0,
                            items > 0,
                    ;
                }
                let r = Craft { loot_id: chest.loot_id.clone(), ingredients, repeat, total };
                assert(r@.ingredients =~= Seq::new(items as nat, |i: int| chest.loot_id@));
                Some(r)
            },
            None => None,
        },
        None => None,
    }
}

/// The chests of a list, each with its count.
pub open spec fn chest_views(s: Seq<Chest>) -> Seq<(Seq<char>, u32)> {
    Seq::new(s.len(), |i: int| (s[i].loot_id@, s[i].count))
}

/// What the client answered about each of some chests.
pub open spec fn fetched_all(s: Seq<Result<Vec<Json>, LcuApiError>>) -> Seq<
    Option<Seq<JsonView>>,
> {
    Seq::new(s.len(), |i: int| fetched(s[i]))
}

/// The orders for some chests, in their order, each from the recipes at its place.
pub open spec fn openings(
    list: Seq<(Seq<char>, u32)>,
    recipes: Seq<Option<Seq<JsonView>>>,
) -> Seq<CraftView>
    decreases list.len(),
{
    if list.len() == 0 {
        Seq::empty()
    } else {
        let rest = openings(list.drop_last(), recipes);
        match opening(list.last().0, list.last().1, recipes[list.len() - 1]) {
            Some(c) => rest.push(c),
            None => rest,
        }
    }
}

/// The orders for some chests, from the client's answers about the recipes of each. A chest
/// whose recipes could not be had is passed over.
pub fn plan_crafts(
    list: &Vec<Chest>,
    answers: &Vec<Result<Vec<Json>, LcuApiError>>,
) -> (r: Vec<Craft>)
    requires
        list@.len() == answers@.len(),
    ensures
        craft_views(r@) == openings(chest_views(list@), fetched_all(answers@)),
{
    let ghost all = chest_views(list@);
    let mut r: Vec<Craft> = Vec::new();
    let mut i: usize = 0;
    assert(craft_views(r@) =~= Seq::empty());
    while i < list.len()
        invariant
            i <= list@.len(),
            list@.len() == answers@.len(),
            all == chest_views(list@),
            craft_views(r@) == openings(all.subrange(0, i as int), fetched_all(answers@)),
        decreases list@.len() - i,
    {
        assert(all.subrange(0, i + 1).drop_last() =~= all.subrange(0, i as int));
        match open_chest(&list[i], &answers[i]) {
            Some(c) => {
                let ghost before = craft_views(r@);
                r.push(c);
                assert(craft_views(r@) =~= before.push(c@));
            },
            None => {},
        }
        i += 1;
    }
    assert(all.subrange(0, all.len() as int) =~= all);
    r
}

/// How many chests were opened: the totals of the orders that the client carried out.
pub open spec fn opened(crafts: Seq<CraftView>, outcomes: Seq<Result<Json, LcuApiError>>) -> nat
    decreases crafts.len(),
{
    if crafts.len() == 0 {
        0
    } else if outcomes[crafts.len() - 1] is Ok {
        opened(crafts.drop_last(), outcomes) + crafts.last().total as nat
    } else {
        opened(crafts.drop_last(), outcomes)
    }
}

proof fn lemma_opened_grows(
    crafts: Seq<CraftView>,
    outcomes: Seq<Result<Json, LcuApiError>>,
    i: int,
)
    requires
        0 <= i <= crafts.len(),
    ensures
        opened(crafts.subrange(0, i), outcomes) <= opened(crafts, outcomes),
    decreases crafts.len() - i,
{
    if i < crafts.len() {
        lemma_opened_grows(crafts, outcomes, i + 1);
        assert(crafts.subrange(0, i + 1).drop_last() =~= crafts.subrange(0, i));
    } else {
        assert(crafts.subrange(0, i) =~= crafts);
    }
}

/// How many chests were opened, from the outcome of each order.
pub fn opened_total(crafts: &Vec<Craft>, outcomes: &Vec<Result<Json, LcuApiError>>) -> (r: usize)
    requires
        crafts@.len() == outcomes@.len(),
        opened(craft_views(crafts@), outcomes@) <= usize::MAX,
    ensures
        r == opened(craft_views(crafts@), outcomes@),
{
    let ghost all = craft_views(crafts@);
    let mut r: usize = 0;
    let mut i: usize = 0;
    while i < crafts.len()
        invariant
            i <= crafts@.len(),
            crafts@.len() == outcomes@.len(),
            all == craft_views(crafts@),
            opened(all, outcomes@) <= usize::MAX,
            r == opened(all.subrange(0, i as int), outcomes@),
        decreases crafts@.len() - i,
    {
        proof {
            lemma_opened_grows(all, outcomes@, i + 1);
            assert(all.subrange(0, i + 1).drop_last() =~= all.subrange(0, i as int));
        }
        if outcomes[i].is_ok() {
            r += crafts[i].total as usize;
        }
        i += 1;
    }
    assert(all.subrange(0, all.len() as int) =~= all);
    r
}

/// What the rewards after a game came to: how many missions were claimed, and how many
/// chests were opened.
#[derive(Clone, Copy, Debug, PartialEq, Eq, Structural)]
pub struct LootReport {
    pub claimed: usize,
    pub opened: usize,
}

/// The rewards after a game: the missions first, then the chests, from the outcome of each
/// claim and of each order.
pub fn run_auto_loot(
    claims: &Vec<Result<Json, LcuApiError>>,
    crafts: &Vec<Craft>,
    outcomes: &Vec<Result<Json, LcuApiError>>,
) -> (r: LootReport)
    requires
        crafts@.len() == outcomes@.len(),
        opened(craft_views(crafts@), outcomes@) <= usize::MAX,
    ensures
        r.claimed == ok_count(claims@),
        r.opened == opened(craft_views(crafts@), outcomes@),
{
    let claimed: usize = claimed_count(claims);
    let opened: usize = opened_total(crafts, outcomes);
    LootReport { claimed, opened }
}

/// A mission is claimed if and only if it is completed.
pub proof fn law_completed_is_claimed(items: Seq<JsonView>, m: MissionView)
    ensures
        completed_missions(items).contains(m) <==> exists|i: int|
            0 <= i < items.len() && completed(#[trigger] items[i]) == Some(m),
    decreases items.len(),
{
    if items.len() > 0 {
        let rest = items.drop_last();
        let last = items.last();
        law_completed_is_claimed(rest, m);
        let claims = completed_missions(items);
        let before = completed_missions(rest);
        assert(items[items.len() - 1] == last);
        assert(forall|i: int| 0 <= i < rest.len() ==> #[trigger] items[i] == rest[i]);
        if before.contains(m) {
            let i = choose|i: int| 0 <= i < before.len() && before[i] == m;
            assert(claims[i] == m);
            let k = choose|k: int|
                0 <= k < rest.len() && completed(#[trigger] rest[k]) == Some(m);
            assert(completed(items[k]) == Some(m));
        }
        if completed(last) == Some(m) {
            assert(claims[claims.len() - 1] == m);
        }
        if claims.contains(m) && completed(last) != Some(m) {
            let i = choose|i: int| 0 <= i < claims.len() && claims[i] == m;
            assert(before[i] == m);
        }
    }
}

/// A chest is ordered if and only if it has a free recipe that its count suffices for, and
/// the order is that of its recipe.
pub proof fn law_free_is_ordered(
    list: Seq<(Seq<char>, u32)>,
    recipes: Seq<Option<Seq<JsonView>>>,
    c: CraftView,
)
    ensures
        openings(list, recipes).contains(c) <==> exists|i: int|
            0 <= i < list.len() && opening((#[trigger] list[i]).0, list[i].1, recipes[i]) == Some(
                c,
            ),
    decreases list.len(),
{
    if list.len() > 0 {
        let rest = list.drop_last();
        let last = list.last();
        law_free_is_ordered(rest, recipes, c);
        let orders = openings(list, recipes);
        let before = openings(rest, recipes);
        assert(list[list.len() - 1] == last);
        assert(forall|i: int| 0 <= i < rest.len() ==> #[trigger] list[i] == rest[i]);
        if before.contains(c) {
            let i = choose|i: int| 0 <= i < before.len() && before[i] == c;
            assert(orders[i] == c);
            let k = choose|k: int|
                0 <= k < rest.len() && opening((#[trigger] rest[k]).0, rest[k].1, recipes[k])
                    == Some(c);
            assert(opening(list[k].0, list[k].1, recipes[k]) == Some(c));
        }
        if opening(last.0, last.1, recipes[list.len() - 1]) == Some(c) {
            assert(orders[orders.len() - 1] == c);
        }
        if orders.contains(c) && opening(last.0, last.1, recipes[list.len() - 1]) != Some(c) {
            let i = choose|i: int| 0 <= i < orders.len() && orders[i] == c;
            assert(before[i] == c);
        }
    }
}

/// No chest is ordered twice: where each stands once among the chests, each stands once among
/// the orders.
pub proof fn law_ordered_once(
    list: Seq<(Seq<char>, u32)>,
    recipes: Seq<Option<Seq<JsonView>>>,
    i: int,
    j: int,
)
    requires
        forall|a: int, b: int|
            0 <= a < b < list.len() ==> (#[trigger] list[a]).0 != (#[trigger] list[b]).0,
        0 <= i < j < openings(list, recipes).len(),
    ensures
        openings(list, recipes)[i].loot_id != openings(list, recipes)[j].loot_id,
    decreases list.len(),
{
    let rest = list.drop_last();
    let last = list.last();
    let before = openings(rest, recipes);
    assert(forall|a: int| 0 <= a < rest.len() ==> #[trigger] rest[a] == list[a]);
    if j < before.len() {
        law_ordered_once(rest, recipes, i, j);
    } else {
        law_free_is_ordered(rest, recipes, before[i]);
        assert(before.contains(before[i]));
        let k = choose|k: int|
            0 <= k < rest.len() && opening((#[trigger] rest[k]).0, rest[k].1, recipes[k]) == Some(
                before[i],
            );
        assert(list[k].0 != list[list.len() - 1].0);
    }
}

/// An order takes the chest and nothing else, opens at least one and no more than there are,
/// and leaves fewer than the recipe takes.
pub proof fn law_order_takes_only_the_chest(
    id: Seq<char>,
    count: u32,
    recipes: Option<Seq<JsonView>>,
)
    ensures
        opening(id, count, recipes) matches Some(c) ==> {
            &&& c.loot_id == id
            &&& forall|i: int| 0 <= i < c.ingredients.len() ==> #[trigger] c.ingredients[i] == id
            &&& c.repeat > 0
            &&& c.total == c.repeat * c.ingredients.len()
            &&& c.total <= count < c.total + c.ingredients.len()
        },
{
    match opening(id, count, recipes) {
        Some(c) => {
            let n = c.ingredients.len() as int;
            let repeat = count as int / n;
            vstd::arithmetic::div_mod::lemma_fundamental_div_mod(count as int, n);
            assert(repeat >= 1 && repeat <= count && repeat * n == n * repeat) by (nonlinear_arith)
                requires
                    count as int == n * repeat + count as int % n,
                    0 <= count as int % n < n,
                    0 < n <= count,
            ;
        },
        None => {},
    }
}

/// A chest that is opened was among the loot, and no more of it are opened than a single
/// entry of the loot lists.
pub proof fn law_chests_are_listed(items: Seq<JsonView>, id: Seq<char>)
    requires
        chests(items).contains_key(id),
    ensures
        exists|i: int|
            0 <= i < items.len() && chest(
                #[trigger] items[i],
                uppercase_of(categories_of(items[i])),
            ) == Some((id, chests(items)[id])),
    decreases items.len(),
{
    let last = items.last();
    let rest = items.drop_last();
    let c = chest(last, uppercase_of(categories_of(last)));
    if c == Some((id, chests(items)[id])) {
        assert(items[items.len() - 1] == last);
    } else {
        law_chests_are_listed(rest, id);
        let i = choose|i: int|
            0 <= i < rest.len() && chest(
                #[trigger] rest[i],
                uppercase_of(categories_of(rest[i])),
            ) == Some((id, chests(rest)[id]));
        assert(items[i] == rest[i]);
    }
}

/// Every entry of a chest counts: the number taken is at least that of each of them.
pub proof fn law_largest_count_stands(items: Seq<JsonView>, i: int)
    requires
        0 <= i < items.len(),
    ensures
        chest(items[i], uppercase_of(categories_of(items[i]))) matches Some(c)
            ==> chests(items).contains_key(c.0) && chests(items)[c.0] >= c.1,
    decreases items.len(),
{
    if i < items.len() - 1 {
        law_largest_count_stands(items.drop_last(), i);
        assert(items.drop_last()[i] == items[i]);
    }
}

} // verus!
