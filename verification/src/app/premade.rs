//! Premade groups: players of one team who keep playing together.
//!
//! Two players are taken to play together where their match histories share at least
//! so many games with the same result; a group is a set of players that are joined by
//! such pairs. Groups are found with a union-find forest.

use crate::app::histories::{
    common_count, count_common_games, history_of, lemma_common_count_symmetric, Histories,
    HistoriesView,
};
use crate::json::{
    array_view, first_text, first_text_of, lemma_array_step, lemma_array_view, Json, JsonView,
};
use crate::text::{
    concat, decimal, join, joined, lemma_sorted_texts, sort_strings, sorted_texts, str_eq,
    text_order, u64_text, views,
};
use crate::app::union_find::{find, forest, relabelled, singletons, union};
use std::collections::HashMap;
use vstd::prelude::*;
use vstd::relations::sorted_by;

verus! {

// ---------------------------------------------------------------------------
// Types
// ---------------------------------------------------------------------------

/// The premade groups of a team.
#[derive(Debug)]
pub struct TeamPremade {
    pub team_name: String,
    pub groups: Vec<PremadeGroup>,
}

/// Players who play together, and how often at least.
#[derive(Debug)]
pub struct PremadeGroup {
    pub summoner_names: Vec<String>,
    pub times: usize,
}

/// What a `PremadeGroup` holds.
pub struct GroupView {
    pub names: Seq<Seq<char>>,
    pub times: nat,
}

impl View for PremadeGroup {
    type V = GroupView;

    open spec fn view(&self) -> GroupView {
        GroupView { names: views(self.summoner_names@), times: self.times as nat }
    }
}

/// The views of some groups.
pub open spec fn group_views(groups: Seq<PremadeGroup>) -> Seq<GroupView> {
    Seq::new(groups.len(), |i: int| groups[i]@)
}

/// What a `TeamPremade` holds.
pub struct TeamPremadeView {
    pub team_name: Seq<char>,
    pub groups: Seq<GroupView>,
}

impl View for TeamPremade {
    type V = TeamPremadeView;

    open spec fn view(&self) -> TeamPremadeView {
        TeamPremadeView { team_name: self.team_name@, groups: group_views(self.groups@) }
    }
}

/// The identifiers and names of the players of a team.
pub type TeamView = Seq<(Seq<char>, Seq<char>)>;

/// The view of a list of players.
pub open spec fn team_view(team: Seq<(String, String)>) -> TeamView {
    Seq::new(team.len(), |i: int| (team[i].0@, team[i].1@))
}

// ---------------------------------------------------------------------------
// Groups
// ---------------------------------------------------------------------------

/// How many games two players of a team have in common with the same result.
pub open spec fn weight(team: TeamView, h: HistoriesView, i: int, j: int) -> nat {
    common_count(history_of(h, team[i].0), history_of(h, team[j].0))
}

/// Two players of a team play together.
pub open spec fn linked(team: TeamView, h: HistoriesView, threshold: nat, i: int, j: int) -> bool {
    0 <= i < team.len() && 0 <= j < team.len() && i != j && weight(team, h, i, j) >= threshold
}

/// A chain of players each of whom plays together with the next.
pub open spec fn is_chain(
    team: TeamView,
    h: HistoriesView,
    threshold: nat,
    chain: Seq<int>,
) -> bool {
    &&& chain.len() > 0
    &&& forall|k: int| 0 <= k < chain.len() ==> 0 <= #[trigger] chain[k] < team.len()
    &&& forall|k: int, l: int|
        0 <= k && l == k + 1 && l < chain.len() ==> linked(
            team,
            h,
            threshold,
            #[trigger] chain[k],
            #[trigger] chain[l],
        )
}

/// Two players are in one group: a chain leads from one to the other.
#[verifier::opaque]
pub open spec fn grouped(team: TeamView, h: HistoriesView, threshold: nat, i: int, j: int) -> bool {
    exists|chain: Seq<int>|
        #[trigger] is_chain(team, h, threshold, chain) && chain.first() == i && chain.last() == j
}

pub proof fn lemma_linked_symmetric(team: TeamView, h: HistoriesView, threshold: nat, i: int, j: int)
    ensures
        linked(team, h, threshold, i, j) == linked(team, h, threshold, j, i),
        weight(team, h, i, j) == weight(team, h, j, i),
{
    lemma_common_count_symmetric(history_of(h, team[i].0), history_of(h, team[j].0));
}

proof fn lemma_grouped_range(team: TeamView, h: HistoriesView, threshold: nat, i: int, j: int)
    requires
        grouped(team, h, threshold, i, j),
    ensures
        0 <= i < team.len(),
        0 <= j < team.len(),
        i != j ==> exists|a: int, b: int| linked(team, h, threshold, a, b),
{
    reveal(grouped);
    let chain = choose|chain: Seq<int>|
        #[trigger] is_chain(team, h, threshold, chain) && chain.first() == i && chain.last() == j;
    assert(0 <= chain[0] < team.len() && 0 <= chain[chain.len() - 1] < team.len());
    if i != j {
        assert(linked(team, h, threshold, chain[0], chain[1]));
    }
}

/// A player who is in one group with another one plays together with somebody.
pub proof fn lemma_grouped_next(team: TeamView, h: HistoriesView, threshold: nat, i: int, j: int)
    requires
        grouped(team, h, threshold, i, j),
        i != j,
    ensures
        exists|b: int| linked(team, h, threshold, i, b),
{
    reveal(grouped);
    let chain = choose|chain: Seq<int>|
        #[trigger] is_chain(team, h, threshold, chain) && chain.first() == i && chain.last() == j;
    assert(linked(team, h, threshold, chain[0], chain[1]));
}

proof fn lemma_grouped_self(team: TeamView, h: HistoriesView, threshold: nat, i: int)
    requires
        0 <= i < team.len(),
    ensures
        grouped(team, h, threshold, i, i),
{
    reveal(grouped);
    let chain = seq![i];
    assert(is_chain(team, h, threshold, chain));
    assert(chain.first() == i && chain.last() == i);
}

proof fn lemma_grouped_link(team: TeamView, h: HistoriesView, threshold: nat, i: int, j: int)
    requires
        linked(team, h, threshold, i, j),
    ensures
        grouped(team, h, threshold, i, j),
{
    reveal(grouped);
    let chain = seq![i, j];
    assert(is_chain(team, h, threshold, chain));
    assert(chain.first() == i && chain.last() == j);
}

proof fn lemma_grouped_symmetric(team: TeamView, h: HistoriesView, threshold: nat, i: int, j: int)
    requires
        grouped(team, h, threshold, i, j),
    ensures
        grouped(team, h, threshold, j, i),
{
    reveal(grouped);
    let chain = choose|chain: Seq<int>|
        #[trigger] is_chain(team, h, threshold, chain) && chain.first() == i && chain.last() == j;
    let back = chain.reverse();
    assert forall|k: int, l: int| 0 <= k && l == k + 1 && l < back.len() implies linked(
        team,
        h,
        threshold,
        #[trigger] back[k],
        #[trigger] back[l],
    ) by {
        let n = chain.len();
        assert(back[k] == chain[n - 1 - k] && back[l] == chain[n - 1 - l]);
        assert(linked(team, h, threshold, chain[n - 1 - l], chain[n - 1 - k]));
        lemma_linked_symmetric(team, h, threshold, chain[n - 1 - l], chain[n - 1 - k]);
    }
    assert(is_chain(team, h, threshold, back));
    assert(back.first() == j && back.last() == i);
}

proof fn lemma_grouped_transitive(
    team: TeamView,
    h: HistoriesView,
    threshold: nat,
    i: int,
    j: int,
    k: int,
)
    requires
        grouped(team, h, threshold, i, j),
        grouped(team, h, threshold, j, k),
    ensures
        grouped(team, h, threshold, i, k),
{
    reveal(grouped);
    let first = choose|chain: Seq<int>|
        #[trigger] is_chain(team, h, threshold, chain) && chain.first() == i && chain.last() == j;
    let second = choose|chain: Seq<int>|
        #[trigger] is_chain(team, h, threshold, chain) && chain.first() == j && chain.last() == k;
    let whole = first.drop_last() + second;
    let n = first.len() - 1;
    assert forall|x: int| 0 <= x < whole.len() implies 0 <= #[trigger] whole[x] < team.len() by {
        if x < n {
            assert(whole[x] == first[x]);
        } else {
            assert(whole[x] == second[x - n]);
        }
    }
    assert forall|x: int, y: int| 0 <= x && y == x + 1 && y < whole.len() implies linked(
        team,
        h,
        threshold,
        #[trigger] whole[x],
        #[trigger] whole[y],
    ) by {
        if y < n {
            assert(linked(team, h, threshold, first[x], first[y]));
        } else if x < n {
            assert(whole[y] == second[0] && second[0] == first[n]);
            assert(linked(team, h, threshold, first[x], first[y]));
        } else {
            assert(linked(team, h, threshold, second[x - n], second[y - n]));
        }
    }
    assert(is_chain(team, h, threshold, whole));
    assert(whole.first() == i);
    assert(whole.last() == k);
}

/// A labelling that agrees on linked players agrees on grouped ones.
proof fn lemma_grouped_label(
    team: TeamView,
    h: HistoriesView,
    threshold: nat,
    label: Seq<int>,
    i: int,
    j: int,
)
    requires
        label.len() == team.len(),
        forall|a: int, b: int| linked(team, h, threshold, a, b) ==> #[trigger] label[a] == #[trigger] label[b],
        grouped(team, h, threshold, i, j),
    ensures
        label[i] == label[j],
{
    reveal(grouped);
    let chain = choose|chain: Seq<int>|
        #[trigger] is_chain(team, h, threshold, chain) && chain.first() == i && chain.last() == j;
    lemma_chain_label(team, h, threshold, label, chain, chain.len() - 1);
}

proof fn lemma_chain_label(
    team: TeamView,
    h: HistoriesView,
    threshold: nat,
    label: Seq<int>,
    chain: Seq<int>,
    k: int,
)
    requires
        label.len() == team.len(),
        forall|a: int, b: int| linked(team, h, threshold, a, b) ==> #[trigger] label[a] == #[trigger] label[b],
        is_chain(team, h, threshold, chain),
        0 <= k < chain.len(),
    ensures
        label[chain[0]] == label[chain[k]],
    decreases k,
{
    if k > 0 {
        lemma_chain_label(team, h, threshold, label, chain, k - 1);
        assert(linked(team, h, threshold, chain[k - 1], chain[k]));
    }
}

/// The names of the first `n` players that are in the set, in their order in the team.
pub open spec fn names_among(team: TeamView, members: Set<int>, n: int) -> Seq<Seq<char>>
    decreases n,
{
    if n <= 0 {
        Seq::empty()
    } else if members.contains(n - 1) {
        names_among(team, members, n - 1).push(team[n - 1].1)
    } else {
        names_among(team, members, n - 1)
    }
}

/// The set holds at least two players, and with each player exactly those who are in
/// one group with them.
#[verifier::opaque]
pub open spec fn is_group(
    team: TeamView,
    h: HistoriesView,
    threshold: nat,
    members: Set<int>,
) -> bool {
    &&& exists|i: int, j: int| i != j && #[trigger] members.contains(i) && #[trigger] members.contains(j)
    &&& forall|i: int| #[trigger] members.contains(i) ==> 0 <= i < team.len()
    &&& forall|i: int, j: int|
        #[trigger] members.contains(i) ==> (#[trigger] members.contains(j) <==> grouped(
            team,
            h,
            threshold,
            i,
            j,
        ))
}

/// `times` is the smallest number of games that two linked players of the set have in
/// common.
pub open spec fn least_weight(
    team: TeamView,
    h: HistoriesView,
    threshold: nat,
    members: Set<int>,
    times: nat,
) -> bool {
    &&& forall|i: int, j: int|
        members.contains(i) && #[trigger] linked(team, h, threshold, i, j) ==> times <= weight(
            team,
            h,
            i,
            j,
        )
    &&& exists|i: int, j: int|
        members.contains(i) && #[trigger] linked(team, h, threshold, i, j) && weight(team, h, i, j)
            == times
}

/// The group stands for the set: it has the names of its players in ascending order and
/// the number of games that they share at least.
pub open spec fn shows_group(
    team: TeamView,
    h: HistoriesView,
    threshold: nat,
    group: GroupView,
    members: Set<int>,
) -> bool {
    &&& group.names == sorted_texts(names_among(team, members, team.len() as int))
    &&& least_weight(team, h, threshold, members, group.times)
}

/// The groups of a team: one for each of the sets, which are all the sets of players
/// that form a group, each once; larger groups come first.
pub open spec fn are_groups(
    team: TeamView,
    h: HistoriesView,
    threshold: nat,
    groups: Seq<GroupView>,
    sets: Seq<Set<int>>,
) -> bool {
    &&& sets.len() == groups.len()
    &&& forall|k: int|
        0 <= k < sets.len() ==> is_group(team, h, threshold, #[trigger] sets[k]) && shows_group(
            team,
            h,
            threshold,
            groups[k],
            sets[k],
        )
    &&& forall|j: int, k: int|
        0 <= j < k < sets.len() ==> #[trigger] sets[j] != #[trigger] sets[k]
    &&& forall|i: int, j: int|
        i != j && grouped(team, h, threshold, i, j) ==> exists|k: int|
            0 <= k < sets.len() && #[trigger] sets[k].contains(i)
    &&& forall|j: int, k: int|
        0 <= j < k < groups.len() ==> #[trigger] groups[j].names.len() >= #[trigger] groups[k].names.len()
}

/// The linked pairs of a team, each once, with the number of games they have in common.
spec fn are_edges(
    team: TeamView,
    h: HistoriesView,
    threshold: nat,
    edges: Seq<(usize, usize, usize)>,
) -> bool {
    &&& forall|e: int|
        #![trigger edges[e]]
        0 <= e < edges.len() ==> linked(
            team,
            h,
            threshold,
            edges[e].0 as int,
            edges[e].1 as int,
        ) && edges[e].2 == weight(team, h, edges[e].0 as int, edges[e].1 as int)
}

spec fn has_edge(edges: Seq<(usize, usize, usize)>, i: int, j: int) -> bool {
    exists|e: int| 0 <= e < edges.len() && #[trigger] edges[e].0 == i && edges[e].1 == j
}

fn find_edges(team: &Vec<(String, String)>, histories: &Histories, threshold: usize) -> (r: Vec<
    (usize, usize, usize),
>)
    ensures
        are_edges(team_view(team@), histories@, threshold as nat, r@),
        forall|i: int, j: int|
            i < j && linked(team_view(team@), histories@, threshold as nat, i, j)
                ==> #[trigger] has_edge(r@, i, j),
{
    let ghost t = team_view(team@);
    let ghost h = histories@;
    let ghost th = threshold as nat;
    let mut r: Vec<(usize, usize, usize)> = Vec::new();
    let mut i: usize = 0;
    while i < team.len()
        invariant
            t == team_view(team@),
            h == histories@,
            th == threshold as nat,
            i <= team@.len(),
            are_edges(t, h, th, r@),
            forall|a: int, b: int|
                a < i && a < b && linked(t, h, th, a, b) ==> #[trigger] has_edge(r@, a, b),
        decreases team@.len() - i,
    {
        let mut j: usize = i + 1;
        while j < team.len()
            invariant
                t == team_view(team@),
                h == histories@,
                th == threshold as nat,
                i < j <= team@.len(),
                are_edges(t, h, th, r@),
                forall|a: int, b: int|
                    a < b && (a < i || (a == i && b < j)) && linked(t, h, th, a, b)
                        ==> #[trigger] has_edge(r@, a, b),
            decreases team@.len() - j,
        {
            let count: usize = count_common_games(
                histories.get(team[i].0.as_str()),
                histories.get(team[j].0.as_str()),
            );
            assert(count == weight(t, h, i as int, j as int));
            let ghost before = r@;
            if count >= threshold {
                r.push((i, j, count));
            }
            proof {
                assert forall|a: int, b: int|
                    a < b && (a < i || (a == i && b < j + 1)) && linked(
                        t,
                        h,
                        th,
                        a,
                        b,
                    ) implies #[trigger] has_edge(r@, a, b) by {
                    if a == i && b == j {
                        assert(r@[r@.len() - 1].0 == a && r@[r@.len() - 1].1 == b);
                    } else {
                        assert(has_edge(before, a, b));
                        let e = choose|e: int|
                            0 <= e < before.len() && #[trigger] before[e].0 == a && before[e].1 == b;
                        assert(r@[e].0 == a && r@[e].1 == b);
                    }
                }
            }
            j += 1;
        }
        i += 1;
    }
    r
}

/// The root of every player's tree, where two players have the same root exactly if they
/// are in one group.
spec fn are_roots(team: TeamView, h: HistoriesView, threshold: nat, roots: Seq<usize>) -> bool {
    &&& roots.len() == team.len()
    &&& forall|i: int|
        0 <= i < roots.len() ==> #[trigger] roots[i] < roots.len() && roots[roots[i] as int]
            == roots[i]
    &&& forall|i: int, j: int|
        0 <= i < roots.len() && 0 <= j < roots.len() ==> (#[trigger] roots[i] == #[trigger] roots[j]
            <==> grouped(team, h, threshold, i, j))
}

fn find_roots(
    n: usize,
    edges: &Vec<(usize, usize, usize)>,
    Ghost(team): Ghost<TeamView>,
    Ghost(h): Ghost<HistoriesView>,
    Ghost(threshold): Ghost<nat>,
) -> (r: Vec<usize>)
    requires
        n == team.len(),
        are_edges(team, h, threshold, edges@),
        forall|i: int, j: int|
            i < j && linked(team, h, threshold, i, j) ==> #[trigger] has_edge(edges@, i, j),
    ensures
        are_roots(team, h, threshold, r@),
{
    let mut parent = singletons(n);
    let mut label: Ghost<Seq<int>> = Ghost(Seq::new(n as nat, |i: int| i));
    let mut height: Ghost<Seq<nat>> = Ghost(Seq::new(n as nat, |i: int| 0nat));
    proof {
        assert forall|i: int, j: int|
            0 <= i < n && 0 <= j < n && #[trigger] label@[i] == #[trigger] label@[j] implies grouped(
            team,
            h,
            threshold,
            i,
            j,
        ) by {
            lemma_grouped_self(team, h, threshold, i);
        }
    }
    let mut e: usize = 0;
    while e < edges.len()
        invariant
            e <= edges@.len(),
            n == team.len(),
            parent@.len() == n,
            are_edges(team, h, threshold, edges@),
            forest(parent@, label@, height@),
            forall|k: int|
                0 <= k < e ==> label@[(#[trigger] edges@[k]).0 as int] == label@[edges@[k].1 as int],
            forall|i: int, j: int|
                0 <= i < n && 0 <= j < n && #[trigger] label@[i] == #[trigger] label@[j] ==> grouped(
                    team,
                    h,
                    threshold,
                    i,
                    j,
                ),
        decreases edges@.len() - e,
    {
        let (a, b, _) = edges[e];
        let ghost before = label@;
        assert(linked(team, h, threshold, edges@[e as int].0 as int, edges@[e as int].1 as int));
        let (new_label, new_height) = union(&mut parent, a, b, label, height);
        label = new_label;
        height = new_height;
        proof {
            let from = before[a as int];
            let to = before[b as int];
            assert(label@ == relabelled(before, from, to));
            lemma_grouped_link(team, h, threshold, a as int, b as int);
            assert forall|i: int, j: int|
                0 <= i < n && 0 <= j < n && #[trigger] label@[i] == #[trigger] label@[j] implies grouped(
                team,
                h,
                threshold,
                i,
                j,
            ) by {
                if before[i] == before[j] {
                } else if before[i] == from {
                    assert(before[j] == to);
                    assert(grouped(team, h, threshold, i, a as int)) by {
                        assert(before[i] == before[a as int]);
                    }
                    assert(grouped(team, h, threshold, b as int, j)) by {
                        assert(before[b as int] == before[j]);
                    }
                    lemma_grouped_transitive(team, h, threshold, i, a as int, b as int);
                    lemma_grouped_transitive(team, h, threshold, i, b as int, j);
                } else {
                    assert(before[j] == from && before[i] == to);
                    assert(grouped(team, h, threshold, j, a as int)) by {
                        assert(before[j] == before[a as int]);
                    }
                    assert(grouped(team, h, threshold, b as int, i)) by {
                        assert(before[b as int] == before[i]);
                    }
                    lemma_grouped_transitive(team, h, threshold, j, a as int, b as int);
                    lemma_grouped_transitive(team, h, threshold, j, b as int, i);
                    lemma_grouped_symmetric(team, h, threshold, j, i);
                }
            }
        }
        e += 1;
    }
    proof {
        assert forall|a: int, b: int| linked(team, h, threshold, a, b) implies #[trigger] label@[a]
            == #[trigger] label@[b] by {
            lemma_linked_symmetric(team, h, threshold, a, b);
            if a < b {
                assert(has_edge(edges@, a, b));
                let k = choose|k: int|
                    0 <= k < edges@.len() && #[trigger] edges@[k].0 == a && edges@[k].1 == b;
                assert(label@[edges@[k].0 as int] == label@[edges@[k].1 as int]);
            } else {
                assert(has_edge(edges@, b, a));
                let k = choose|k: int|
                    0 <= k < edges@.len() && #[trigger] edges@[k].0 == b && edges@[k].1 == a;
                assert(label@[edges@[k].0 as int] == label@[edges@[k].1 as int]);
            }
        }
        assert forall|i: int, j: int| grouped(team, h, threshold, i, j) implies #[trigger] label@[i]
            == #[trigger] label@[j] by {
            lemma_grouped_label(team, h, threshold, label@, i, j);
        }
    }
    let mut roots: Vec<usize> = Vec::new();
    let mut i: usize = 0;
    while i < n
        invariant
            i <= n,
            parent@.len() == n,
            forest(parent@, label@, height@),
            roots@.len() == i,
            forall|k: int| 0 <= k < i ==> #[trigger] roots@[k] == label@[k],
        decreases n - i,
    {
        let root = find(&mut parent, i, label, height);
        roots.push(root);
        i += 1;
    }
    proof {
        assert forall|k: int| 0 <= k < roots@.len() implies #[trigger] roots@[k] < roots@.len()
            && roots@[roots@[k] as int] == roots@[k] by {
            assert(parent@[label@[k]] == label@[k]);
            assert(label@[label@[k]] == label@[k]);
            assert(roots@[label@[k]] == label@[label@[k]]);
        }
    }
    roots
}

/// The players with the given root.
spec fn class_of(roots: Seq<usize>, root: int) -> Set<int> {
    Set::new(|i: int| 0 <= i < roots.len() && roots[i] == root)
}

/// At least two players have the given root.
spec fn shared(roots: Seq<usize>, root: int) -> bool {
    exists|i: int, j: int|
        i != j && #[trigger] class_of(roots, root).contains(i) && #[trigger] class_of(
            roots,
            root,
        ).contains(j)
}

fn names_with_root(team: &Vec<(String, String)>, roots: &Vec<usize>, root: usize) -> (r: Vec<
    String,
>)
    requires
        team@.len() == roots@.len(),
    ensures
        views(r@) == names_among(
            team_view(team@),
            class_of(roots@, root as int),
            team@.len() as int,
        ),
        r@.len() >= 2 <==> shared(roots@, root as int),
{
    let ghost members = class_of(roots@, root as int);
    let ghost mut found = Seq::<int>::empty();
    let mut r: Vec<String> = Vec::new();
    let mut i: usize = 0;
    assert(views(r@) =~= Seq::<Seq<char>>::empty());
    while i < team.len()
        invariant
            i <= team@.len(),
            team@.len() == roots@.len(),
            members == class_of(roots@, root as int),
            views(r@) == names_among(team_view(team@), members, i as int),
            found.len() == r@.len(),
            forall|k: int| 0 <= k < found.len() ==> 0 <= #[trigger] found[k] < i && members.contains(
                found[k],
            ),
            forall|k: int, l: int| 0 <= k < l < found.len() ==> #[trigger] found[k] < #[trigger] found[l],
            forall|a: int| 0 <= a < i && #[trigger] members.contains(a) ==> found.contains(a),
        decreases team@.len() - i,
    {
        if roots[i] == root {
            let ghost before = views(r@);
            let ghost old_found = found;
            r.push(team[i].1.clone());
            proof {
                assert(views(r@) =~= before.push(team@[i as int].1@));
                found = found.push(i as int);
                assert(members.contains(i as int));
                assert forall|a: int| 0 <= a < i + 1 && #[trigger] members.contains(a) implies found.contains(
                    a,
                ) by {
                    if a == i {
                        assert(found[found.len() - 1] == a);
                    } else {
                        let k = old_found.index_of(a);
                        assert(old_found.contains(a));
                        assert(found[k] == a);
                    }
                }
            }
        }
        i += 1;
    }
    proof {
        if r@.len() >= 2 {
            assert(found[0] < found[1]);
            assert(members.contains(found[0]) && members.contains(found[1]));
        }
        if shared(roots@, root as int) {
            let (a, b) = choose|a: int, b: int|
                a != b && #[trigger] class_of(roots@, root as int).contains(a)
                    && #[trigger] class_of(roots@, root as int).contains(b);
            assert(members.contains(a) && members.contains(b));
            assert(found.contains(a) && found.contains(b));
            let x = found.index_of(a);
            let y = found.index_of(b);
            assert(x != y);
        }
    }
    r
}

fn least_times(
    edges: &Vec<(usize, usize, usize)>,
    roots: &Vec<usize>,
    root: usize,
    Ghost(team): Ghost<TeamView>,
    Ghost(h): Ghost<HistoriesView>,
    Ghost(threshold): Ghost<nat>,
) -> (r: usize)
    requires
        are_edges(team, h, threshold, edges@),
        forall|i: int, j: int|
            i < j && linked(team, h, threshold, i, j) ==> #[trigger] has_edge(edges@, i, j),
        are_roots(team, h, threshold, roots@),
        shared(roots@, root as int),
    ensures
        least_weight(team, h, threshold, class_of(roots@, root as int), r as nat),
{
    let ghost members = class_of(roots@, root as int);
    let mut least: Option<usize> = None;
    let mut e: usize = 0;
    while e < edges.len()
        invariant
            e <= edges@.len(),
            are_edges(team, h, threshold, edges@),
            roots@.len() == team.len(),
            members == class_of(roots@, root as int),
            forall|k: int|
                0 <= k < e && members.contains((#[trigger] edges@[k]).0 as int) ==> least is Some
                    && least->0 <= edges@[k].2,
            least is Some ==> exists|i: int, j: int|
                members.contains(i) && #[trigger] linked(team, h, threshold, i, j) && weight(
                    team,
                    h,
                    i,
                    j,
                ) == least->0,
        decreases edges@.len() - e,
    {
        let (a, b, count) = edges[e];
        assert(linked(team, h, threshold, edges@[e as int].0 as int, edges@[e as int].1 as int));
        let smaller = match least {
            Some(n) => count < n,
            None => true,
        };
        if roots[a] == root && smaller {
            least = Some(count);
            assert(members.contains(a as int) && linked(team, h, threshold, a as int, b as int)
                && weight(team, h, a as int, b as int) == count);
        }
        e += 1;
    }
    proof {
        assert forall|i: int, j: int|
            members.contains(i) && #[trigger] linked(team, h, threshold, i, j) implies least is Some
            && least->0 <= weight(team, h, i, j) by {
            lemma_linked_symmetric(team, h, threshold, i, j);
            lemma_grouped_link(team, h, threshold, i, j);
            assert(roots@[i] == roots@[j]);
            if i < j {
                assert(has_edge(edges@, i, j));
                let k = choose|k: int|
                    0 <= k < edges@.len() && #[trigger] edges@[k].0 == i && edges@[k].1 == j;
                assert(least->0 <= edges@[k].2);
            } else {
                assert(has_edge(edges@, j, i));
                let k = choose|k: int|
                    0 <= k < edges@.len() && #[trigger] edges@[k].0 == j && edges@[k].1 == i;
                assert(members.contains(j));
                assert(least->0 <= edges@[k].2);
            }
        }
        let (a, b) = choose|a: int, b: int|
            a != b && #[trigger] members.contains(a) && #[trigger] members.contains(b);
        assert(grouped(team, h, threshold, a, b));
        lemma_grouped_next(team, h, threshold, a, b);
    }
    match least {
        Some(n) => n,
        None => 0,
    }
}

/// The class of a root that at least two players share is a group.
proof fn lemma_class_is_group(
    team: TeamView,
    h: HistoriesView,
    threshold: nat,
    roots: Seq<usize>,
    root: int,
)
    requires
        are_roots(team, h, threshold, roots),
        0 <= root < roots.len(),
        shared(roots, root),
    ensures
        is_group(team, h, threshold, class_of(roots, root)),
{
    reveal(is_group);
    let members = class_of(roots, root);
    assert forall|i: int, j: int| #[trigger] members.contains(i) implies (#[trigger] members.contains(j)
        <==> grouped(team, h, threshold, i, j)) by {
        if grouped(team, h, threshold, i, j) {
            lemma_grouped_range(team, h, threshold, i, j);
            assert(roots[i] == roots[j]);
        } else if members.contains(j) {
            assert(roots[i] == roots[j]);
        }
    }
}

/// The premade groups of a team: players are linked where they have at least
/// `threshold` games in common with the same result.
pub fn calc_inferred_premade(
    team_name: &str,
    team: &Vec<(String, String)>,
    histories: &Histories,
    threshold: usize,
) -> (r: TeamPremade)
    ensures
        r@.team_name == team_name@,
        exists|sets: Seq<Set<int>>|
            are_groups(
                team_view(team@),
                histories@,
                threshold as nat,
                r@.groups,
                sets,
            ),
{
    let ghost t = team_view(team@);
    let ghost h = histories@;
    let ghost th = threshold as nat;
    let edges = find_edges(team, histories, threshold);
    let roots = find_roots(team.len(), &edges, Ghost(t), Ghost(h), Ghost(th));
    let ghost mut keys = Seq::<int>::empty();
    let mut groups: Vec<PremadeGroup> = Vec::new();
    let mut root: usize = 0;
    while root < team.len()
        invariant
            t == team_view(team@),
            root <= team@.len(),
            are_edges(t, h, th, edges@),
            forall|i: int, j: int|
                i < j && linked(t, h, th, i, j) ==> #[trigger] has_edge(edges@, i, j),
            are_roots(t, h, th, roots@),
            keys.len() == groups@.len(),
            forall|k: int|
                0 <= k < keys.len() ==> 0 <= #[trigger] keys[k] < root && roots@[keys[k]] == keys[k]
                    && shared(roots@, keys[k]) && shows_group(
                    t,
                    h,
                    th,
                    groups@[k]@,
                    class_of(roots@, keys[k]),
                ),
            forall|j: int, k: int| 0 <= j < k < keys.len() ==> #[trigger] keys[j] != #[trigger] keys[k],
            forall|a: int|
                0 <= a < root && #[trigger] roots@[a] == a && shared(roots@, a) ==> keys.contains(a),
            forall|j: int, k: int|
                0 <= j < k < groups@.len() ==> (#[trigger] groups@[j]).summoner_names@.len()
                    >= (#[trigger] groups@[k]).summoner_names@.len(),
        decreases team@.len() - root,
    {
        if roots[root] == root {
            let names = names_with_root(team, &roots, root);
            if names.len() >= 2 {
                let times = least_times(&edges, &roots, root, Ghost(t), Ghost(h), Ghost(th));
                let sorted = sort_strings(&names);
                let size: usize = sorted.len();
                let ghost group_names = views(sorted@);
                let group = PremadeGroup { summoner_names: sorted, times };
                let mut at: usize = groups.len();
                while at > 0 && groups[at - 1].summoner_names.len() < size
                    invariant
                        at <= groups@.len(),
                        forall|k: int|
                            at <= k < groups@.len() ==> (#[trigger] groups@[k]).summoner_names@.len()
                                < size,
                    decreases at,
                {
                    at -= 1;
                }
                let ghost old_groups = groups@;
                let ghost old_keys = keys;
                groups.insert(at, group);
                proof {
                    keys = keys.insert(at as int, root as int);
                    assert(shows_group(t, h, th, group@, class_of(roots@, root as int)));
                    assert forall|k: int| 0 <= k < keys.len() implies 0 <= #[trigger] keys[k] < root + 1
                        && roots@[keys[k]] == keys[k] && shared(roots@, keys[k]) && shows_group(
                        t,
                        h,
                        th,
                        groups@[k]@,
                        class_of(roots@, keys[k]),
                    ) by {
                        if k < at {
                            assert(keys[k] == old_keys[k] && groups@[k] == old_groups[k]);
                        } else if k > at {
                            assert(keys[k] == old_keys[k - 1] && groups@[k] == old_groups[k - 1]);
                        }
                    }
                    assert forall|j: int, k: int| 0 <= j < k < keys.len() implies #[trigger] keys[j]
                        != #[trigger] keys[k] by {
                        let jj = if j < at {
                            j
                        } else {
                            j - 1
                        };
                        let kk = if k < at {
                            k
                        } else {
                            k - 1
                        };
                        if j != at && k != at {
                            assert(keys[j] == old_keys[jj] && keys[k] == old_keys[kk]);
                        } else if j == at {
                            assert(keys[k] == old_keys[kk]);
                        } else {
                            assert(keys[j] == old_keys[jj]);
                        }
                    }
                    assert forall|a: int|
                        0 <= a < root + 1 && #[trigger] roots@[a] == a && shared(
                            roots@,
                            a,
                        ) implies keys.contains(a) by {
                        if a == root {
                            assert(keys[at as int] == a);
                        } else {
                            assert(old_keys.contains(a));
                            let k = old_keys.index_of(a);
                            if k < at {
                                assert(keys[k] == a);
                            } else {
                                assert(keys[k + 1] == a);
                            }
                        }
                    }
                    assert forall|j: int, k: int| 0 <= j < k < groups@.len() implies (
                    #[trigger] groups@[j]).summoner_names@.len() >= (
                    #[trigger] groups@[k]).summoner_names@.len() by {
                        assert(group.summoner_names@.len() == size);
                        if k < at {
                            assert(groups@[j] == old_groups[j] && groups@[k] == old_groups[k]);
                        } else if k == at {
                            assert(groups@[j] == old_groups[j]);
                            if j < at - 1 {
                                assert(old_groups[j].summoner_names@.len() >= old_groups[at
                                    - 1].summoner_names@.len());
                            }
                        } else if j < at {
                            assert(groups@[j] == old_groups[j] && groups@[k] == old_groups[k - 1]);
                        } else if j == at {
                            assert(groups@[k] == old_groups[k - 1]);
                        } else {
                            assert(groups@[j] == old_groups[j - 1] && groups@[k] == old_groups[k
                                - 1]);
                        }
                    }
                }
            }
        }
        root += 1;
    }
    let r = TeamPremade { team_name: team_name.to_owned(), groups };
    proof {
        let sets = Seq::new(keys.len(), |k: int| class_of(roots@, keys[k]));
        assert forall|k: int| 0 <= k < sets.len() implies is_group(t, h, th, #[trigger] sets[k])
            && shows_group(t, h, th, r@.groups[k], sets[k]) by {
            assert(0 <= keys[k] < team@.len());
            lemma_class_is_group(t, h, th, roots@, keys[k]);
        }
        assert forall|j: int, k: int| 0 <= j < k < sets.len() implies #[trigger] sets[j]
            != #[trigger] sets[k] by {
            assert(keys[j] != keys[k]);
            assert(sets[j].contains(keys[j]) && !sets[k].contains(keys[j]));
        }
        assert forall|i: int, j: int| i != j && grouped(t, h, th, i, j) implies exists|k: int|
            0 <= k < sets.len() && #[trigger] sets[k].contains(i) by {
            lemma_grouped_range(t, h, th, i, j);
            let a = roots@[i] as int;
            assert(roots@[i] == roots@[j]);
            assert(roots@[a] == a);
            assert(class_of(roots@, a).contains(i) && class_of(roots@, a).contains(j));
            assert(shared(roots@, a));
            assert(keys.contains(a));
            let k = keys.index_of(a);
            assert(sets[k].contains(i));
        }
        assert forall|j: int, k: int| 0 <= j < k < r@.groups.len() implies #[trigger] r@.groups[j].names.len()
            >= #[trigger] r@.groups[k].names.len() by {
            assert(r@.groups[j] == groups@[j]@ && r@.groups[k] == groups@[k]@);
        }
        assert(are_groups(t, h, th, r@.groups, sets));
    }
    r
}

// ---------------------------------------------------------------------------
// Laws of groups
// ---------------------------------------------------------------------------

proof fn lemma_names_among_len(team: TeamView, members: Set<int>, n: int, i: int, j: int)
    requires
        0 <= i < j < n,
        members.contains(i),
        members.contains(j),
    ensures
        names_among(team, members, n).len() >= 2,
    decreases n,
{
    if j < n - 1 {
        lemma_names_among_len(team, members, n - 1, i, j);
    } else {
        lemma_names_among_some(team, members, n - 1, i);
    }
}

proof fn lemma_names_among_some(team: TeamView, members: Set<int>, n: int, i: int)
    requires
        0 <= i < n,
        members.contains(i),
    ensures
        names_among(team, members, n).len() >= 1,
    decreases n,
{
    if i < n - 1 {
        lemma_names_among_some(team, members, n - 1, i);
    }
}

pub proof fn lemma_group_pair(
    team: TeamView,
    h: HistoriesView,
    threshold: nat,
    members: Set<int>,
    i: int,
    j: int,
)
    requires
        is_group(team, h, threshold, members),
        members.contains(i),
    ensures
        members.contains(j) <==> grouped(team, h, threshold, i, j),
{
    reveal(is_group);
}

pub proof fn lemma_group_two(
    team: TeamView,
    h: HistoriesView,
    threshold: nat,
    members: Set<int>,
) -> (r: (int, int))
    requires
        is_group(team, h, threshold, members),
    ensures
        0 <= r.0 < r.1 < team.len(),
        members.contains(r.0),
        members.contains(r.1),
{
    reveal(is_group);
    let (i, j) = choose|i: int, j: int|
        i != j && #[trigger] members.contains(i) && #[trigger] members.contains(j);
    if i < j {
        (i, j)
    } else {
        (j, i)
    }
}

/// No player is in two groups.
pub proof fn law_groups_disjoint(
    team: TeamView,
    h: HistoriesView,
    threshold: nat,
    groups: Seq<GroupView>,
    sets: Seq<Set<int>>,
    a: int,
    b: int,
)
    requires
        are_groups(team, h, threshold, groups, sets),
        0 <= a < b < sets.len(),
    ensures
        sets[a].disjoint(sets[b]),
{
    if !sets[a].disjoint(sets[b]) {
        let i = choose|i: int| sets[a].contains(i) && sets[b].contains(i);
        assert forall|j: int| sets[a].contains(j) == sets[b].contains(j) by {
            lemma_group_pair(team, h, threshold, sets[a], i, j);
            lemma_group_pair(team, h, threshold, sets[b], i, j);
        }
        assert(sets[a] =~= sets[b]);
    }
}

/// Two players who play together are in the same group.
pub proof fn law_linked_players_share_a_group(
    team: TeamView,
    h: HistoriesView,
    threshold: nat,
    groups: Seq<GroupView>,
    sets: Seq<Set<int>>,
    i: int,
    j: int,
)
    requires
        are_groups(team, h, threshold, groups, sets),
        linked(team, h, threshold, i, j),
    ensures
        exists|k: int|
            0 <= k < sets.len() && #[trigger] sets[k].contains(i) && sets[k].contains(j),
{
    lemma_grouped_link(team, h, threshold, i, j);
    let k = choose|k: int| 0 <= k < sets.len() && #[trigger] sets[k].contains(i);
    lemma_group_pair(team, h, threshold, sets[k], i, j);
    assert(sets[k].contains(i) && sets[k].contains(j));
}

/// Every group names at least two players, in ascending order, and counts at least as
/// many games as the threshold asks for.
pub proof fn law_group_shape(
    team: TeamView,
    h: HistoriesView,
    threshold: nat,
    groups: Seq<GroupView>,
    sets: Seq<Set<int>>,
    k: int,
)
    requires
        are_groups(team, h, threshold, groups, sets),
        0 <= k < groups.len(),
    ensures
        groups[k].names.len() >= 2,
        sorted_by(groups[k].names, text_order()),
        groups[k].times >= threshold,
{
    let members = sets[k];
    let (i, j) = lemma_group_two(team, h, threshold, members);
    let names = names_among(team, members, team.len() as int);
    lemma_names_among_len(team, members, team.len() as int, i, j);
    lemma_sorted_texts(names, names);
}

/// A team in which nobody plays together has no groups, and neither has a team of fewer
/// than two players.
pub proof fn law_no_links_no_groups(
    team: TeamView,
    h: HistoriesView,
    threshold: nat,
    groups: Seq<GroupView>,
    sets: Seq<Set<int>>,
)
    requires
        are_groups(team, h, threshold, groups, sets),
        team.len() < 2 || forall|i: int, j: int| !linked(team, h, threshold, i, j),
    ensures
        groups.len() == 0,
{
    if groups.len() > 0 {
        let (i, j) = lemma_group_two(team, h, threshold, sets[0]);
        lemma_group_pair(team, h, threshold, sets[0], i, j);
        lemma_grouped_range(team, h, threshold, i, j);
    }
}

// ---------------------------------------------------------------------------
// Teams in a session
// ---------------------------------------------------------------------------

/// An identifier that stands for a real player: it is not empty and does not begin with
/// a zero.
pub open spec fn real_puuid(puuid: Seq<char>) -> bool {
    puuid.len() > 0 && puuid[0] != '0'
}

/// A player of a champion select: identifier, name, and the champion that is picked or,
/// where there is none yet, intended.
pub open spec fn select_player(p: JsonView) -> Option<(Seq<char>, Seq<char>, i64)> {
    match p.text_field("puuid"@) {
        Some(puuid) => if real_puuid(puuid) {
            let champion = match p.integer_field("championId"@) {
                Some(id) => if id != 0 {
                    Some(id)
                } else {
                    None
                },
                None => None,
            };
            Some(
                (
                    puuid,
                    first_text(p, "summonerName"@, "displayName"@, puuid),
                    match champion {
                        Some(id) => id,
                        None => match p.integer_field("championPickIntent"@) {
                            Some(id) => id,
                            None => 0,
                        },
                    },
                ),
            )
        } else {
            None
        },
        None => None,
    }
}

/// The real players among some entries of a champion select.
pub open spec fn select_players(entries: Seq<JsonView>) -> Seq<(Seq<char>, Seq<char>, i64)>
    decreases entries.len(),
{
    if entries.len() == 0 {
        Seq::empty()
    } else {
        match select_player(entries.last()) {
            Some(p) => select_players(entries.drop_last()).push(p),
            None => select_players(entries.drop_last()),
        }
    }
}

/// The players of a team in a champion select; a missing team has none.
pub open spec fn select_team(session: JsonView, key: Seq<char>) -> Seq<
    (Seq<char>, Seq<char>, i64),
> {
    match session.items_field(key) {
        Some(entries) => select_players(entries),
        None => Seq::empty(),
    }
}

/// The side of a team, which stands with its first player, as a word of 32 bits.
pub open spec fn select_side(session: JsonView, key: Seq<char>) -> Option<u32> {
    match session.items_field(key) {
        Some(entries) => if entries.len() > 0 {
            match entries[0].field("team"@) {
                Some(side) => match side.unsigned() {
                    Some(n) => Some((n % 0x1_0000_0000) as u32),
                    None => None,
                },
                None => None,
            }
        } else {
            None
        },
        None => None,
    }
}

/// The view of a list of players with their champions.
pub open spec fn roster_view(v: Seq<(String, String, i64)>) -> Seq<(Seq<char>, Seq<char>, i64)> {
    Seq::new(v.len(), |i: int| (v[i].0@, v[i].1@, v[i].2))
}

fn is_real_puuid(puuid: &str) -> (r: bool)
    ensures
        r == real_puuid(puuid@),
{
    if puuid.unicode_len() == 0 {
        false
    } else {
        puuid.get_char(0) != '0'
    }
}

fn read_select_player(p: &Json) -> (r: Option<(String, String, i64)>)
    ensures
        r is Some <==> select_player(p@) is Some,
        r matches Some(x) ==> select_player(p@) == Some((x.0@, x.1@, x.2)),
{
    match p.get_str("puuid") {
        Some(puuid) => {
            if !is_real_puuid(puuid) {
                return None;
            }
            let name = first_text_of(p, "summonerName", "displayName", puuid);
            let picked: i64 = match p.get_i64("championId") {
                Some(id) => id,
                None => 0,
            };
            let champion: i64 = if picked != 0 {
                picked
            } else {
                match p.get_i64("championPickIntent") {
                    Some(id) => id,
                    None => 0,
                }
            };
            Some((puuid.to_owned(), name, champion))
        },
        None => None,
    }
}

fn read_select_team(session: &Json, key: &str) -> (r: Vec<(String, String, i64)>)
    ensures
        roster_view(r@) == select_team(session@, key@),
{
    let mut r: Vec<(String, String, i64)> = Vec::new();
    assert(roster_view(r@) =~= Seq::empty());
    match session.get_array(key) {
        Some(entries) => {
            proof {
                lemma_array_view(entries@);
                assert(array_view(entries@).subrange(0, 0) =~= Seq::empty());
            }
            let mut i: usize = 0;
            while i < entries.len()
                invariant
                    i <= entries@.len(),
                    array_view(entries@).len() == entries@.len(),
                    roster_view(r@) == select_players(array_view(entries@).subrange(0, i as int)),
                decreases entries@.len() - i,
            {
                proof {
                    lemma_array_step(entries@, i as int);
                }
                match read_select_player(&entries[i]) {
                    Some(p) => {
                        let ghost before = roster_view(r@);
                        r.push(p);
                        assert(roster_view(r@) =~= before.push((p.0@, p.1@, p.2)));
                    },
                    None => {},
                }
                i += 1;
            }
            assert(array_view(entries@).subrange(0, entries@.len() as int) =~= array_view(
                entries@,
            ));
        },
        None => {},
    }
    r
}

fn read_select_side(session: &Json, key: &str) -> (r: Option<u32>)
    ensures
        r == select_side(session@, key@),
{
    match session.get_array(key) {
        Some(entries) => {
            proof {
                lemma_array_view(entries@);
            }
            if entries.len() > 0 {
                match entries[0].get("team") {
                    Some(side) => match side.as_u64() {
                        Some(n) => Some((n % 0x1_0000_0000) as u32),
                        None => None,
                    },
                    None => None,
                }
            } else {
                None
            }
        },
        None => None,
    }
}

/// The two teams of a champion select, each with its side.
pub fn extract_teams_from_session(session: &Json) -> (r: (
    Vec<(String, String, i64)>,
    Vec<(String, String, i64)>,
    Option<u32>,
    Option<u32>,
))
    ensures
        roster_view(r.0@) == select_team(session@, "myTeam"@),
        roster_view(r.1@) == select_team(session@, "theirTeam"@),
        r.2 == select_side(session@, "myTeam"@),
        r.3 == select_side(session@, "theirTeam"@),
{
    (
        read_select_team(session, "myTeam"),
        read_select_team(session, "theirTeam"),
        read_select_side(session, "myTeam"),
        read_select_side(session, "theirTeam"),
    )
}

/// A player of a running game: identifier, and name with the champion's name behind it
/// where it is known.
pub open spec fn game_player(p: JsonView, names: Map<i64, String>) -> Option<
    (Seq<char>, Seq<char>),
> {
    match p.text_field("puuid"@) {
        Some(puuid) => if real_puuid(puuid) {
            let name = first_text(p, "summonerName"@, "gameName"@, puuid);
            let champion = match p.integer_field("championId"@) {
                Some(id) => id,
                None => 0,
            };
            Some(
                (
                    puuid,
                    if champion != 0 && names.contains_key(champion) {
                        name + "("@ + names[champion]@ + ")"@
                    } else {
                        name
                    },
                ),
            )
        } else {
            None
        },
        None => None,
    }
}

/// The real players among some entries of a running game.
pub open spec fn game_players(entries: Seq<JsonView>, names: Map<i64, String>) -> TeamView
    decreases entries.len(),
{
    if entries.len() == 0 {
        Seq::empty()
    } else {
        match game_player(entries.last(), names) {
            Some(p) => game_players(entries.drop_last(), names).push(p),
            None => game_players(entries.drop_last(), names),
        }
    }
}

/// Where the teams of a running game stand in a session.
pub open spec fn game_data(session: JsonView) -> JsonView {
    match session.field("gameData"@) {
        Some(v) => v,
        None => session,
    }
}

/// The players of a team in a running game; a missing team has none.
pub open spec fn game_team(session: JsonView, key: Seq<char>, names: Map<i64, String>) -> TeamView {
    match game_data(session).items_field(key) {
        Some(entries) => game_players(entries, names),
        None => Seq::empty(),
    }
}

/// A player is in a team.
pub open spec fn plays_in(team: TeamView, puuid: Seq<char>) -> bool {
    exists|i: int| 0 <= i < team.len() && #[trigger] team[i].0 == puuid
}

/// The two teams of a running game, the player's own first, each with its side: the
/// first team of the session is on side 100, the second on side 200. A player who is not
/// in the first team is taken to be in the second.
pub open spec fn game_teams(session: JsonView, me: Seq<char>, names: Map<i64, String>) -> (
    TeamView,
    TeamView,
    u32,
    u32,
) {
    let one = game_team(session, "teamOne"@, names);
    let two = game_team(session, "teamTwo"@, names);
    if plays_in(one, me) {
        (one, two, 100, 200)
    } else {
        (two, one, 200, 100)
    }
}

fn read_game_player(p: &Json, names: &HashMap<i64, String>) -> (r: Option<(String, String)>)
    ensures
        r is Some <==> game_player(p@, names@) is Some,
        r matches Some(x) ==> game_player(p@, names@) == Some((x.0@, x.1@)),
{
    broadcast use vstd::std_specs::hash::group_hash_axioms;

    match p.get_str("puuid") {
        Some(puuid) => {
            if !is_real_puuid(puuid) {
                return None;
            }
            let name = first_text_of(p, "summonerName", "gameName", puuid);
            let champion: i64 = match p.get_i64("championId") {
                Some(id) => id,
                None => 0,
            };
            let label = if champion != 0 {
                match names.get(&champion) {
                    Some(champion_name) => {
                        let mut label = concat(name.as_str(), "(");
                        label.append(champion_name.as_str());
                        label.append(")");
                        label
                    },
                    None => name,
                }
            } else {
                name
            };
            Some((puuid.to_owned(), label))
        },
        None => None,
    }
}

fn read_game_team(data: &Json, key: &str, names: &HashMap<i64, String>) -> (r: Vec<(String, String)>)
    ensures
        team_view(r@) == match data@.items_field(key@) {
            Some(entries) => game_players(entries, names@),
            None => Seq::empty(),
        },
{
    let mut r: Vec<(String, String)> = Vec::new();
    assert(team_view(r@) =~= Seq::empty());
    match data.get_array(key) {
        Some(entries) => {
            proof {
                lemma_array_view(entries@);
                assert(array_view(entries@).subrange(0, 0) =~= Seq::empty());
            }
            let mut i: usize = 0;
            while i < entries.len()
                invariant
                    i <= entries@.len(),
                    array_view(entries@).len() == entries@.len(),
                    team_view(r@) == game_players(
                        array_view(entries@).subrange(0, i as int),
                        names@,
                    ),
                decreases entries@.len() - i,
            {
                proof {
                    lemma_array_step(entries@, i as int);
                }
                match read_game_player(&entries[i], names) {
                    Some(p) => {
                        let ghost before = team_view(r@);
                        r.push(p);
                        assert(team_view(r@) =~= before.push((p.0@, p.1@)));
                    },
                    None => {},
                }
                i += 1;
            }
            assert(array_view(entries@).subrange(0, entries@.len() as int) =~= array_view(
                entries@,
            ));
        },
        None => {},
    }
    r
}

fn has_player(team: &Vec<(String, String)>, puuid: &str) -> (r: bool)
    ensures
        r == plays_in(team_view(team@), puuid@),
{
    let mut i: usize = 0;
    while i < team.len()
        invariant
            i <= team@.len(),
            forall|k: int| 0 <= k < i ==> #[trigger] team_view(team@)[k].0 != puuid@,
        decreases team@.len() - i,
    {
        if str_eq(team[i].0.as_str(), puuid) {
            assert(team_view(team@)[i as int].0 == puuid@);
            return true;
        }
        i += 1;
    }
    false
}

/// The two teams of a running game, the player's own first, each with its side.
pub fn extract_teams_from_gameflow_session(
    session: &Json,
    my_puuid: &str,
    id_name_map: &HashMap<i64, String>,
) -> (r: (Vec<(String, String)>, Vec<(String, String)>, Option<u32>, Option<u32>))
    ensures
        r.2 is Some && r.3 is Some,
        (team_view(r.0@), team_view(r.1@), r.2->0, r.3->0) == game_teams(
            session@,
            my_puuid@,
            id_name_map@,
        ),
{
    let data = match session.get("gameData") {
        Some(v) => v,
        None => session,
    };
    let one = read_game_team(data, "teamOne", id_name_map);
    let two = read_game_team(data, "teamTwo", id_name_map);
    if has_player(&one, my_puuid) {
        (one, two, Some(100), Some(200))
    } else {
        (two, one, Some(200), Some(100))
    }
}

// ---------------------------------------------------------------------------
// The message
// ---------------------------------------------------------------------------

/// The name of a side.
pub open spec fn side_label(side: Option<u32>) -> Seq<char> {
    match side {
        Some(100) => "🔵蓝队"@,
        Some(200) => "🔴红队"@,
        _ => ""@,
    }
}

/// A group in a line: how many players, how many games, and who.
pub open spec fn group_line(g: GroupView) -> Seq<char> {
    "  "@ + decimal(g.names.len()) + "黑（"@ + decimal(g.times) + "局）："@ + joined(g.names, " / "@)
}

/// The groups of a team, one line for each.
pub open spec fn team_text(t: TeamPremadeView, side: Option<u32>) -> Seq<char> {
    let head = t.team_name + " "@ + side_label(side);
    if t.groups.len() == 0 {
        head + "：未检测到预组队"@
    } else {
        head + "：\n"@ + joined(Seq::new(t.groups.len(), |i: int| group_line(t.groups[i])), "\n"@)
    }
}

/// The groups of both teams.
pub open spec fn premade_text(
    mine: TeamPremadeView,
    theirs: TeamPremadeView,
    my_side: Option<u32>,
    their_side: Option<u32>,
) -> Seq<char> {
    "[对局组黑分析]\n"@ + team_text(mine, my_side) + "\n"@ + team_text(theirs, their_side)
}

fn side_name(side: Option<u32>) -> (r: &'static str)
    ensures
        r@ == side_label(side),
{
    match side {
        Some(100) => "🔵蓝队",
        Some(200) => "🔴红队",
        _ => "",
    }
}

fn format_group(g: &PremadeGroup) -> (r: String)
    ensures
        r@ == group_line(g@),
{
    let mut r = concat("  ", u64_text(g.summoner_names.len() as u64).as_str());
    r.append("黑（");
    r.append(u64_text(g.times as u64).as_str());
    r.append("局）：");
    r.append(join(&g.summoner_names, " / ").as_str());
    r
}

fn format_team(t: &TeamPremade, side: Option<u32>) -> (r: String)
    ensures
        r@ == team_text(t@, side),
{
    let mut r = concat(t.team_name.as_str(), " ");
    r.append(side_name(side));
    if t.groups.len() == 0 {
        r.append("：未检测到预组队");
        return r;
    }
    r.append("：\n");
    let mut lines: Vec<String> = Vec::new();
    let mut i: usize = 0;
    while i < t.groups.len()
        invariant
            i <= t.groups@.len(),
            lines@.len() == i,
            forall|k: int| 0 <= k < i ==> #[trigger] lines@[k]@ == group_line(t.groups@[k]@),
        decreases t.groups@.len() - i,
    {
        lines.push(format_group(&t.groups[i]));
        i += 1;
    }
    assert(views(lines@) =~= Seq::new(t@.groups.len(), |i: int| group_line(t@.groups[i])));
    r.append(join(&lines, "\n").as_str());
    r
}

/// The message on the premade groups of both teams.
pub fn format_premade_message(
    my_team: &TeamPremade,
    their_team: &TeamPremade,
    my_side: Option<u32>,
    their_side: Option<u32>,
) -> (r: String)
    ensures
        r@ == premade_text(my_team@, their_team@, my_side, their_side),
{
    let mut r = concat("[对局组黑分析]\n", format_team(my_team, my_side).as_str());
    r.append("\n");
    r.append(format_team(their_team, their_side).as_str());
    r
}

/// The groups of both teams, from the histories of all their players.
pub fn analyze_premade(
    my_team: &Vec<(String, String)>,
    their_team: &Vec<(String, String)>,
    histories: &Histories,
    threshold: usize,
) -> (r: (TeamPremade, TeamPremade))
    ensures
        r.0@.team_name == "我方"@,
        r.1@.team_name == "对方"@,
        exists|sets: Seq<Set<int>>|
            are_groups(team_view(my_team@), histories@, threshold as nat, r.0@.groups, sets),
        exists|sets: Seq<Set<int>>|
            are_groups(team_view(their_team@), histories@, threshold as nat, r.1@.groups, sets),
{
    (
        calc_inferred_premade("我方", my_team, histories, threshold),
        calc_inferred_premade("对方", their_team, histories, threshold),
    )
}

} // verus!
