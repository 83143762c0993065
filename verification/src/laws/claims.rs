//! Which forgotten loot is claimed, and how.

use crate::app::handlers::loot::{
    claim_list, claim_request, claimable, claimables, claims_sent, ClaimableView,
};
use crate::json::JsonView;
use crate::text::{contains, decimal_int, has_infix, has_prefix};
use vstd::prelude::*;

verus! {

proof fn lemma_claimed_from(items: Seq<JsonView>, i: int) -> (k: int)
    requires
        0 <= i < claimables(items).len(),
    ensures
        0 <= k < items.len(),
        claimable(items[k]) == Some(claimables(items)[i]),
    decreases items.len(),
{
    let rest = items.drop_last();
    if i < claimables(rest).len() {
        let k = lemma_claimed_from(rest, i);
        assert(rest[k] == items[k]);
        k
    } else {
        items.len() - 1
    }
}

proof fn lemma_claimed_where(items: Seq<JsonView>, k: int)
    requires
        0 <= k < items.len(),
        claimable(items[k]) is Some,
    ensures
        claimables(items).contains(claimable(items[k])->0),
    decreases items.len(),
{
    let rest = items.drop_last();
    let all = claimables(items);
    if k < rest.len() {
        assert(rest[k] == items[k]);
        lemma_claimed_where(rest, k);
        let before = claimables(rest);
        assert(all[before.index_of(claimable(items[k])->0)] == claimable(items[k])->0);
    } else {
        assert(all[all.len() - 1] == claimable(items[k])->0);
    }
}

/// Loot is claimed only where the client lists it with a count above zero, under an
/// identifier that begins with `REWARD_` or `CHEST_` or holds `champion_faceoff` or
/// `_REWARD`. A currency has none of these, and is left alone whatever its count.
pub proof fn law_other_loot_is_left_alone(items: Seq<JsonView>, i: int)
    requires
        0 <= i < claimables(items).len(),
    ensures
        ({
            let c = claimables(items)[i];
            &&& c.count > 0
            &&& has_prefix(c.loot_id, "REWARD_"@) || has_prefix(c.loot_id, "CHEST_"@) || has_infix(
                c.loot_id,
                "champion_faceoff"@,
            ) || has_infix(c.loot_id, "_REWARD"@)
            &&& exists|k: int|
                0 <= k < items.len() && (#[trigger] items[k]).field("lootId"@) == Some(
                    JsonView::Str(c.loot_id),
                ) && items[k].integer_field("count"@) == Some(c.count)
        }),
{
    let k = lemma_claimed_from(items, i);
    if items[k].text_field("lootId"@) is None {
        reveal_strlit("");
        reveal_strlit("REWARD_");
        reveal_strlit("CHEST_");
        reveal_strlit("champion_faceoff");
        reveal_strlit("_REWARD");
        assert(false);
    }
    assert(items[k].field("lootId"@) == Some(JsonView::Str(claimables(items)[i].loot_id)));
}

/// All loot of these kinds is claimed: an entry with such an identifier and a count above
/// zero is in the list, with its own count; a chest is opened, and anything else claimed.
pub proof fn law_every_reward_is_claimed(
    items: Seq<JsonView>,
    k: int,
    loot_id: Seq<char>,
    count: i64,
)
    requires
        0 <= k < items.len(),
        items[k].field("lootId"@) == Some(JsonView::Str(loot_id)),
        items[k].integer_field("count"@) == Some(count),
        count > 0,
        has_prefix(loot_id, "REWARD_"@) || has_prefix(loot_id, "CHEST_"@) || has_infix(
            loot_id,
            "champion_faceoff"@,
        ) || has_infix(loot_id, "_REWARD"@),
    ensures
        exists|i: int|
            0 <= i < claimables(items).len() && (#[trigger] claimables(items)[i]).loot_id == loot_id
                && claimables(items)[i].count == count && (has_prefix(loot_id, "CHEST_"@)
                ==> claimables(items)[i].recipe == "CHEST_generic_OPEN"@) && (!has_prefix(
                loot_id,
                "CHEST_"@,
            ) ==> claimables(items)[i].recipe == "REWARD_claim"@),
{
    lemma_claimed_where(items, k);
    let c = claimable(items[k])->0;
    let i = claimables(items).index_of(c);
    assert(claimables(items)[i].loot_id == loot_id);
}

/// Loot is claimed with the recipe for it: a chest is opened, and anything else claimed.
pub proof fn law_chests_are_opened(items: Seq<JsonView>, i: int)
    requires
        0 <= i < claimables(items).len(),
    ensures
        ({
            let c = claimables(items)[i];
            &&& has_prefix(c.loot_id, "CHEST_"@) ==> c.recipe == "CHEST_generic_OPEN"@
            &&& !has_prefix(c.loot_id, "CHEST_"@) ==> c.recipe == "REWARD_claim"@
        }),
{
    let k = lemma_claimed_from(items, i);
}

/// Loot is shown by its name, by its description where it has no name, and by its
/// identifier where it has neither.
pub proof fn law_loot_goes_by_its_name(loot: JsonView)
    ensures
        claimable(loot) matches Some(c) ==> {
            &&& loot.field("localizedName"@) matches Some(JsonView::Str(name)) ==> c.name == name
            &&& loot.field("localizedName"@) is None && (loot.field("localizedDescription"@)
                matches Some(JsonView::Str(_))) ==> Some(c.name) == loot.text_field(
                "localizedDescription"@,
            )
            &&& loot.field("localizedName"@) is None && loot.field("localizedDescription"@) is None
                ==> c.name == c.loot_id
        },
{
}

/// The list keeps the order of the loot: what is claimed of two lists, one behind the other,
/// is what is claimed of the first and then what is claimed of the second.
pub proof fn law_claims_keep_their_order(a: Seq<JsonView>, b: Seq<JsonView>)
    ensures
        claimables(a + b) == claimables(a) + claimables(b),
        b.len() == 1 ==> claimables(b).len() <= 1,
    decreases b.len(),
{
    reveal_with_fuel(claimables, 2);
    if b.len() == 0 {
        assert(a + b =~= a);
        assert(claimables(a) + claimables(b) =~= claimables(a));
    } else {
        assert((a + b).drop_last() =~= a + b.drop_last());
        law_claims_keep_their_order(a, b.drop_last());
        assert(claimables(a + b) =~= claimables(a) + claimables(b));
    }
}

/// Claiming a piece of loot uses its recipe, once, on that piece and nothing else.
pub proof fn law_claim_takes_the_piece(c: ClaimableView)
    ensures
        claim_request(c).method is Post,
        claim_request(c).endpoint == "/lol-loot/v1/recipes/"@ + c.recipe + "/craft?repeat=1"@,
        claim_request(c).body == Some(JsonView::Array(seq![JsonView::Str(c.loot_id)])),
{
}

/// The list that is shown has a line for each piece, with its name and count, in their order.
pub proof fn law_each_claim_is_shown(items: Seq<ClaimableView>, c: ClaimableView)
    ensures
        claim_list(items.push(c)) == claim_list(items) + (" - "@ + c.name + " (数量: "@
            + decimal_int(c.count as int) + ")\n"@),
        claim_list(Seq::empty()).len() == 0,
{
    assert(items.push(c).drop_last() =~= items);
}

/// Nothing is claimed unless the user agrees; then everything that was found is.
pub proof fn law_claims_need_consent(items: Seq<JsonView>)
    ensures
        claims_sent(claimables(items).len(), true) == claimables(items).len(),
        claims_sent(claimables(items).len(), false) == 0,
{
}

} // verus!
