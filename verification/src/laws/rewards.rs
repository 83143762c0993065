//! Which missions are claimed, which chests are opened, and what counts.

use crate::app::loot::{
    categories_of, chest, chests, completed, completed_missions, first_free, law_chests_are_listed,
    law_completed_is_claimed, law_largest_count_stands, ok_count, opened, opening, opens_for_free,
    per_craft, takes_only, total_quantity, CraftView,
};
use crate::json::{Json, JsonView};
use crate::lcu::api::LcuApiError;
use crate::text::{contains, has_infix, uppercase_of};
use vstd::prelude::*;

verus! {

/// The entry is a mission with the given identifier whose status is `COMPLETED`.
pub open spec fn is_completed(m: JsonView, id: Seq<char>) -> bool {
    m.field("id"@) == Some(JsonView::Str(id)) && m.field("status"@) == Some(
        JsonView::Str("COMPLETED"@),
    )
}

/// A reward is claimed for every completed mission, under its title or, where it has none,
/// under its identifier.
pub proof fn law_completed_missions_are_claimed(items: Seq<JsonView>, i: int, id: Seq<char>)
    requires
        0 <= i < items.len(),
        is_completed(items[i], id),
    ensures
        exists|k: int|
            0 <= k < completed_missions(items).len() && (#[trigger] completed_missions(items)[k]).id
                == id && (items[i].field("title"@) is None ==> completed_missions(items)[k].title
                == id) && (items[i].field("title"@) matches Some(JsonView::Str(t))
                ==> completed_missions(items)[k].title == t),
{
    let m = completed(items[i])->0;
    law_completed_is_claimed(items, m);
    let k = completed_missions(items).index_of(m);
    assert(completed_missions(items)[k] == m);
}

/// No reward is claimed for a mission that is not completed.
pub proof fn law_only_completed_missions_are_claimed(items: Seq<JsonView>, k: int)
    requires
        0 <= k < completed_missions(items).len(),
    ensures
        exists|i: int|
            0 <= i < items.len() && is_completed(#[trigger] items[i], completed_missions(items)[k].id),
{
    let m = completed_missions(items)[k];
    law_completed_is_claimed(items, m);
    assert(completed_missions(items).contains(m));
    let i = choose|i: int| 0 <= i < items.len() && completed(#[trigger] items[i]) == Some(m);
    assert(is_completed(items[i], m.id));
}

/// The missions are claimed in the order of the list, each once.
pub proof fn law_claims_follow_the_list(a: Seq<JsonView>, m: JsonView)
    ensures
        completed_missions(Seq::empty()).len() == 0,
        (exists|id: Seq<char>| is_completed(m, id)) ==> completed_missions(a.push(m)).len()
            == completed_missions(a).len() + 1 && completed_missions(a.push(m)).drop_last()
            == completed_missions(a) && is_completed(m, completed_missions(a.push(m)).last().id),
        (forall|id: Seq<char>| !is_completed(m, id)) ==> completed_missions(a.push(m))
            == completed_missions(a),
{
    assert(a.push(m).drop_last() =~= a);
    if exists|id: Seq<char>| is_completed(m, id) {
        assert(completed_missions(a.push(m)).drop_last() =~= completed_missions(a));
    } else {
        if completed(m) is Some {
            assert(is_completed(m, completed(m)->0.id));
        }
    }
}

/// A claim counts where the client carried it out, and only then.
pub proof fn law_each_success_counts(
    outcomes: Seq<Result<Json, LcuApiError>>,
    o: Result<Json, LcuApiError>,
)
    ensures
        ok_count(Seq::empty()) == 0,
        ok_count(outcomes.push(o)) == ok_count(outcomes) + if o is Ok {
            1nat
        } else {
            0
        },
{
    assert(outcomes.push(o).drop_last() =~= outcomes);
}

/// The entry lists so many of a chest: it has the chest's identifier, a count above zero and
/// a category that holds `CHEST`, in capital letters or not.
pub open spec fn lists_chest(item: JsonView, id: Seq<char>, count: u32) -> bool {
    &&& item.field("lootId"@) == Some(JsonView::Str(id))
    &&& item.field("count"@) == Some(
        JsonView::Number(crate::json::Number::Unsigned(count as u64)),
    )
    &&& count > 0
    &&& item.field("displayCategories"@) matches Some(JsonView::Str(categories)) && has_infix(
        uppercase_of(categories),
        "CHEST"@,
    )
}

/// Every chest that the loot lists may be opened, as many of it as the largest entry says at
/// least.
pub proof fn law_listed_chests_may_be_opened(
    items: Seq<JsonView>,
    i: int,
    id: Seq<char>,
    count: u32,
)
    requires
        0 <= i < items.len(),
        lists_chest(items[i], id, count),
    ensures
        chests(items).contains_key(id),
        chests(items)[id] >= count,
{
    law_largest_count_stands(items, i);
    assert(chest(items[i], uppercase_of(categories_of(items[i]))) == Some((id, count)));
}

/// Nothing else may be opened: behind every chest there is an entry with its identifier,
/// a category that holds `CHEST`, and a count that is the number taken, as far as that fits.
pub proof fn law_nothing_but_chests_is_opened(items: Seq<JsonView>, id: Seq<char>)
    requires
        chests(items).contains_key(id),
    ensures
        chests(items)[id] > 0,
        exists|i: int|
            0 <= i < items.len() && (#[trigger] items[i]).field("lootId"@) == Some(
                JsonView::Str(id),
            ) && has_infix(
                uppercase_of(
                    match items[i].field("displayCategories"@) {
                        Some(JsonView::Str(c)) => c,
                        _ => ""@,
                    },
                ),
                "CHEST"@,
            ) && (items[i].field("count"@) matches Some(
                JsonView::Number(crate::json::Number::Unsigned(n)),
            ) && (n <= u32::MAX ==> chests(items)[id] == n)),
{
    law_chests_are_listed(items, id);
    let i = choose|i: int|
        0 <= i < items.len() && chest(
            #[trigger] items[i],
            uppercase_of(categories_of(items[i])),
        ) == Some((id, chests(items)[id]));
    assert(items[i].field("lootId"@) == Some(JsonView::Str(id)));
}

/// A slot asks for the chest alone: it lists identifiers, and all of them are the chest's.
pub open spec fn asks_for_the_chest(slot: JsonView, id: Seq<char>) -> bool {
    &&& slot.field("lootIds"@) matches Some(JsonView::Array(ids))
    &&& exists|i: int| 0 <= i < ids.len() && #[trigger] ids[i] is Str
    &&& forall|i: int|
        0 <= i < ids.len() && #[trigger] ids[i] is Str ==> ids[i] == JsonView::Str(id)
}

/// The recipe opens the chest without a key: its type is `open`, and every slot asks for the
/// chest alone.
pub open spec fn needs_no_key(recipe: JsonView, id: Seq<char>) -> bool {
    &&& recipe.field("type"@) == Some(JsonView::Str("open"@))
    &&& recipe.field("slots"@) matches Some(JsonView::Array(slots))
    &&& forall|i: int| 0 <= i < slots.len() ==> asks_for_the_chest(#[trigger] slots[i], id)
}

proof fn lemma_needs_no_key(recipe: JsonView, id: Seq<char>)
    ensures
        opens_for_free(recipe, id) == needs_no_key(recipe, id),
{
    if recipe.items_field("slots"@) is Some {
        let slots = recipe.items_field("slots"@)->0;
        assert forall|i: int| 0 <= i < slots.len() implies takes_only(#[trigger] slots[i], id)
            == asks_for_the_chest(slots[i], id) by {
            lemma_asks(slots[i], id);
        }
        if opens_for_free(recipe, id) {
            assert forall|i: int| 0 <= i < slots.len() implies asks_for_the_chest(
                #[trigger] slots[i],
                id,
            ) by {
                assert(takes_only(slots[i], id));
            }
        }
        if needs_no_key(recipe, id) {
            assert forall|i: int| 0 <= i < slots.len() implies takes_only(
                #[trigger] slots[i],
                id,
            ) by {
                assert(asks_for_the_chest(slots[i], id));
            }
        }
    }
}

proof fn lemma_asks(slot: JsonView, id: Seq<char>)
    ensures
        takes_only(slot, id) == asks_for_the_chest(slot, id),
{
    if slot.items_field("lootIds"@) is Some {
        let ids = slot.items_field("lootIds"@)->0;
        if takes_only(slot, id) {
            let i = choose|i: int| 0 <= i < ids.len() && (#[trigger] ids[i]).text() is Some;
            assert(ids[i] is Str);
            assert forall|k: int| 0 <= k < ids.len() && #[trigger] ids[k] is Str implies ids[k]
                == JsonView::Str(id) by {
                assert(ids[k].text() is Some);
            }
        }
        if asks_for_the_chest(slot, id) {
            let i = choose|i: int| 0 <= i < ids.len() && #[trigger] ids[i] is Str;
            assert(ids[i].text() is Some);
            assert forall|k: int| 0 <= k < ids.len() implies ((#[trigger] ids[k]).text()
                matches Some(x) ==> x == id) by {
                if ids[k] is Str {
                    assert(ids[k] == JsonView::Str(id));
                }
            }
        }
    }
}

/// A chest is opened with the first of its recipes that needs no key, and with none where
/// every recipe needs one.
pub proof fn law_chests_open_without_a_key(recipes: Seq<JsonView>, id: Seq<char>)
    ensures
        match first_free(recipes, id) {
            Some(recipe) => exists|i: int|
                0 <= i < recipes.len() && #[trigger] recipes[i] == recipe && needs_no_key(recipe, id)
                    && forall|k: int| 0 <= k < i ==> !needs_no_key(#[trigger] recipes[k], id),
            None => forall|k: int|
                0 <= k < recipes.len() ==> !needs_no_key(#[trigger] recipes[k], id),
        },
    decreases recipes.len(),
{
    if recipes.len() > 0 {
        let rest = recipes.drop_last();
        law_chests_open_without_a_key(rest, id);
        lemma_needs_no_key(recipes.last(), id);
        assert(forall|i: int|
            #![trigger rest[i]]
            #![trigger recipes[i]]
            0 <= i < rest.len() ==> rest[i] == recipes[i]);
        assert(recipes[recipes.len() - 1] == recipes.last());
        if first_free(rest, id) is Some {
            let recipe = first_free(rest, id)->0;
            let i = choose|i: int|
                0 <= i < rest.len() && #[trigger] rest[i] == recipe && needs_no_key(recipe, id)
                    && forall|k: int| 0 <= k < i ==> !needs_no_key(#[trigger] rest[k], id);
            assert(recipes[i] == recipe);
        }
    }
}

/// A recipe takes as many chests as its slots say together, one for each slot that does not
/// say, and at least one.
pub proof fn law_slots_add_up(slots: Seq<JsonView>, slot: JsonView, recipe: JsonView)
    ensures
        total_quantity(Seq::empty()) == 0,
        slot.field("quantity"@) is None ==> total_quantity(slots.push(slot)) == total_quantity(
            slots,
        ) + 1,
        slot.field("quantity"@) matches Some(JsonView::Number(crate::json::Number::Unsigned(n)))
            ==> (n <= u32::MAX ==> total_quantity(slots.push(slot)) == total_quantity(slots) + n),
        recipe.field("slots"@) == Some(JsonView::Array(slots)) ==> per_craft(recipe) == (
        if total_quantity(slots) > 0 {
            total_quantity(slots)
        } else {
            1
        }),
{
    assert(slots.push(slot).drop_last() =~= slots);
}

/// An order for a chest takes as many chests each time as its recipe says, and is given
/// exactly if there are that many.
pub proof fn law_order_is_by_the_recipe(
    id: Seq<char>,
    count: u32,
    recipes: Seq<JsonView>,
    recipe: JsonView,
)
    requires
        first_free(recipes, id) == Some(recipe),
    ensures
        opening(id, count, Some(recipes)) is Some <==> per_craft(recipe) <= count,
        opening(id, count, Some(recipes)) matches Some(c) ==> c.ingredients.len() == per_craft(
            recipe,
        ),
        opening(id, count, None) is None,
{
}

/// The chests of an order count as opened where the client carried it out, and only then.
pub proof fn law_each_opening_counts(
    crafts: Seq<CraftView>,
    c: CraftView,
    outcomes: Seq<Result<Json, LcuApiError>>,
)
    ensures
        opened(Seq::empty(), outcomes) == 0,
        opened(crafts.push(c), outcomes) == opened(crafts, outcomes) + if outcomes[crafts.len() as int]
            is Ok {
            c.total as nat
        } else {
            0
        },
{
    assert(crafts.push(c).drop_last() =~= crafts);
}

} // verus!
