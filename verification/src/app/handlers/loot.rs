//! Loot that the player has forgotten: finding it, asking, and claiming it.

use crate::json::{array_view, lemma_array_step, lemma_array_view, Json, JsonView};
use crate::lcu::api::{LcuClient, Method, Request, RequestView};
use crate::text::{concat, contains, decimal_int, has_infix, has_prefix, i64_text, starts_with};
use vstd::prelude::*;

verus! {

/// A piece of loot that can be claimed, with its name, the recipe for it and how many there
/// are.
#[derive(Debug)]
pub struct Claimable {
    pub loot_id: String,
    pub name: String,
    pub recipe: String,
    pub count: i64,
}

/// What a `Claimable` holds.
pub struct ClaimableView {
    pub loot_id: Seq<char>,
    pub name: Seq<char>,
    pub recipe: Seq<char>,
    pub count: i64,
}

impl View for Claimable {
    type V = ClaimableView;

    open spec fn view(&self) -> ClaimableView {
        ClaimableView {
            loot_id: self.loot_id@,
            name: self.name@,
            recipe: self.recipe@,
            count: self.count,
        }
    }
}

/// The views of some pieces of loot.
pub open spec fn claimable_views(s: Seq<Claimable>) -> Seq<ClaimableView> {
    Seq::new(s.len(), |i: int| s[i]@)
}

/// The loot is a reward.
pub open spec fn is_reward(loot_id: Seq<char>) -> bool {
    has_prefix(loot_id, "REWARD_"@) || has_infix(loot_id, "champion_faceoff"@) || has_prefix(
        loot_id,
        "CHEST_"@,
    ) || has_infix(loot_id, "_REWARD"@)
}

/// The recipe for a reward.
pub open spec fn recipe_of(loot_id: Seq<char>) -> Seq<char> {
    if has_prefix(loot_id, "CHEST_"@) {
        "CHEST_generic_OPEN"@
    } else {
        "REWARD_claim"@
    }
}

/// The name of a piece of loot: its own, else its description, else its identifier.
pub open spec fn loot_name(loot: JsonView, loot_id: Seq<char>) -> Seq<char> {
    match loot.text_field("localizedName"@) {
        Some(s) => s,
        None => match loot.text_field("localizedDescription"@) {
            Some(s) => s,
            None => loot_id,
        },
    }
}

/// A piece of loot that can be claimed: a reward, of which there is at least one.
pub open spec fn claimable(loot: JsonView) -> Option<ClaimableView> {
    let loot_id = match loot.text_field("lootId"@) {
        Some(s) => s,
        None => ""@,
    };
    let count = match loot.integer_field("count"@) {
        Some(n) => n,
        None => 0,
    };
    if count > 0 && is_reward(loot_id) {
        Some(
            ClaimableView {
                loot_id,
                name: loot_name(loot, loot_id),
                recipe: recipe_of(loot_id),
                count,
            },
        )
    } else {
        None
    }
}

/// The pieces of loot that can be claimed, in their order.
pub open spec fn claimables(items: Seq<JsonView>) -> Seq<ClaimableView>
    decreases items.len(),
{
    if items.len() == 0 {
        Seq::empty()
    } else {
        match claimable(items.last()) {
            Some(c) => claimables(items.drop_last()).push(c),
            None => claimables(items.drop_last()),
        }
    }
}

fn read_claimable(loot: &Json) -> (r: Option<Claimable>)
    ensures
        claimable(loot@) == match r {
            Some(c) => Some(c@),
            None => None,
        },
{
    let loot_id = match loot.get_str("lootId") {
        Some(s) => s,
        None => "",
    };
    let count: i64 = match loot.get_i64("count") {
        Some(n) => n,
        None => 0,
    };
    let name = match loot.get_str("localizedName") {
        Some(s) => s,
        None => match loot.get_str("localizedDescription") {
            Some(s) => s,
            None => loot_id,
        },
    };
    if count <= 0 {
        return None;
    }
    let reward = starts_with(loot_id, "REWARD_") || contains(loot_id, "champion_faceoff")
        || starts_with(loot_id, "CHEST_") || contains(loot_id, "_REWARD");
    if !reward {
        return None;
    }
    let recipe = if starts_with(loot_id, "CHEST_") {
        "CHEST_generic_OPEN"
    } else {
        "REWARD_claim"
    };
    Some(
        Claimable {
            loot_id: loot_id.to_owned(),
            name: name.to_owned(),
            recipe: recipe.to_owned(),
            count,
        },
    )
}

/// The pieces of loot that can be claimed. Anything but a list of loot is no answer.
pub fn handle_find_forgotten_loot(loot_list: &Json) -> (r: Option<Vec<Claimable>>)
    ensures
        match r {
            Some(v) => loot_list@.items() is Some && claimable_views(v@) == claimables(
                loot_list@.items()->0,
            ),
            None => loot_list@.items() is None,
        },
{
    let items = match loot_list.as_array() {
        Some(v) => v,
        None => {
            return None;
        },
    };
    let mut r: Vec<Claimable> = Vec::new();
    proof {
        lemma_array_view(items@);
        assert(array_view(items@).subrange(0, 0) =~= Seq::empty());
        assert(claimable_views(r@) =~= Seq::empty());
    }
    let mut i: usize = 0;
    while i < items.len()
        invariant
            i <= items@.len(),
            array_view(items@).len() == items@.len(),
            claimable_views(r@) == claimables(array_view(items@).subrange(0, i as int)),
        decreases items@.len() - i,
    {
        proof {
            lemma_array_step(items@, i as int);
        }
        match read_claimable(&items[i]) {
            Some(c) => {
                let ghost before = claimable_views(r@);
                r.push(c);
                assert(claimable_views(r@) =~= before.push(c@));
            },
            None => {},
        }
        i += 1;
    }
    assert(array_view(items@).subrange(0, items@.len() as int) =~= array_view(items@));
    Some(r)
}

/// What a dialog says: its title, its text, and whether it asks for a decision.
#[derive(Debug)]
pub struct Dialog {
    pub caption: String,
    pub text: String,
    pub asks: bool,
}

/// The list of what can be claimed, one line for each.
pub open spec fn claim_list(items: Seq<ClaimableView>) -> Seq<char>
    decreases items.len(),
{
    if items.len() == 0 {
        Seq::empty()
    } else {
        claim_list(items.drop_last()) + (" - "@ + items.last().name + " (数量: "@ + decimal_int(
            items.last().count as int,
        ) + ")\n"@)
    }
}

/// What the user is shown: what can be claimed, with the question whether to claim it, or
/// that there is nothing.
pub fn loot_dialog(items: &Vec<Claimable>) -> (r: Dialog)
    ensures
        items@.len() == 0 ==> r.caption@ == "战利品检查"@ && r.text@
            == "没有发现可领取的遗忘资源。"@ && !r.asks,
        items@.len() > 0 ==> r.caption@ == "找回遗忘的东西"@ && r.text@
            == "发现以下可领取资源：\n\n"@ + claim_list(claimable_views(items@))
            + "\n是否立即找回？"@ && r.asks,
{
    if items.len() == 0 {
        return Dialog {
            caption: "战利品检查".to_owned(),
            text: "没有发现可领取的遗忘资源。".to_owned(),
            asks: false,
        };
    }
    let mut list = String::new();
    let ghost all = claimable_views(items@);
    assert(all.subrange(0, 0) =~= Seq::empty());
    let mut i: usize = 0;
    while i < items.len()
        invariant
            i <= items@.len(),
            all == claimable_views(items@),
            list@ == claim_list(all.subrange(0, i as int)),
        decreases items@.len() - i,
    {
        proof {
            let seen = all.subrange(0, i + 1);
            assert(seen.drop_last() =~= all.subrange(0, i as int));
            assert(seen.last() == items@[i as int]@);
        }
        let mut line = concat(" - ", items[i].name.as_str());
        line.append(" (数量: ");
        line.append(i64_text(items[i].count).as_str());
        line.append(")\n");
        list.append(line.as_str());
        i += 1;
    }
    assert(all.subrange(0, all.len() as int) =~= all);
    let mut text = concat("发现以下可领取资源：\n\n", list.as_str());
    text.append("\n是否立即找回？");
    Dialog { caption: "找回遗忘的东西".to_owned(), text, asks: true }
}

/// The request that claims a piece of loot.
pub open spec fn claim_request(c: ClaimableView) -> RequestView {
    RequestView {
        method: Method::Post,
        endpoint: "/lol-loot/v1/recipes/"@ + c.recipe + "/craft?repeat=1"@,
        body: Some(JsonView::Array(seq![JsonView::Str(c.loot_id)])),
    }
}

/// How many of some pieces of loot are claimed: all of them, where the user agreed.
pub open spec fn claims_sent(found: nat, agreed: bool) -> nat {
    if agreed {
        found
    } else {
        0
    }
}

/// The requests that claim what can be claimed, one for each, in their order; none where
/// the user does not agree.
pub fn claim_requests(client: &LcuClient, items: &Vec<Claimable>, agreed: bool) -> (r: Vec<
    Request,
>)
    ensures
        r@.len() == claims_sent(items@.len(), agreed),
        forall|i: int| 0 <= i < r@.len() ==> #[trigger] r@[i]@ == claim_request(items@[i]@),
{
    let mut r: Vec<Request> = Vec::new();
    if !agreed {
        return r;
    }
    let mut i: usize = 0;
    while i < items.len()
        invariant
            i <= items@.len(),
            r@.len() == i,
            forall|k: int| 0 <= k < i ==> #[trigger] r@[k]@ == claim_request(items@[k]@),
        decreases items@.len() - i,
    {
        r.push(client.call_loot_recipe(items[i].loot_id.as_str(), items[i].recipe.as_str()));
        i += 1;
    }
    r
}

/// Everything that can be claimed is a reward of which there is at least one, with the
/// recipe for it.
pub proof fn law_only_rewards_are_claimed(items: Seq<JsonView>, i: int)
    requires
        0 <= i < claimables(items).len(),
    ensures
        is_reward(claimables(items)[i].loot_id),
        claimables(items)[i].count > 0,
        claimables(items)[i].recipe == recipe_of(claimables(items)[i].loot_id),
    decreases items.len(),
{
    if items.len() > 0 {
        let rest = claimables(items.drop_last());
        if i < rest.len() {
            law_only_rewards_are_claimed(items.drop_last(), i);
        }
    }
}

} // verus!
