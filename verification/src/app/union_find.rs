//! A union-find forest over the indices of a list.

use vstd::prelude::*;

verus! {

/// `parent` is a forest in which the tree of `i` has the root `label[i]`; going up, the
/// heights fall.
pub open spec fn forest(parent: Seq<usize>, label: Seq<int>, height: Seq<nat>) -> bool {
    &&& parent.len() == label.len()
    &&& parent.len() == height.len()
    &&& forall|i: int|
        #![trigger parent[i]]
        #![trigger label[i]]
        0 <= i < parent.len() ==> {
            &&& parent[i] < parent.len()
            &&& 0 <= label[i] < parent.len()
            &&& label[parent[i] as int] == label[i]
            &&& parent[label[i]] == label[i]
            &&& (parent[i] == i <==> label[i] == i)
            &&& parent[i] != i ==> height[parent[i] as int] < height[i]
            &&& height[label[i]] <= height[i]
        }
}

/// The labels after the tree with the root `from` was hung under the root `to`.
pub open spec fn relabelled(label: Seq<int>, from: int, to: int) -> Seq<int> {
    Seq::new(
        label.len(),
        |i: int|
            if label[i] == from {
                to
            } else {
                label[i]
            },
    )
}

spec fn raised(label: Seq<int>, height: Seq<nat>, from: int, to: int) -> Seq<nat> {
    Seq::new(
        height.len(),
        |i: int|
            if label[i] == from {
                height[i] + height[to] + 1
            } else {
                height[i]
            },
    )
}

/// Every index on its own.
pub fn singletons(n: usize) -> (r: Vec<usize>)
    ensures
        r@.len() == n,
        forest(r@, Seq::new(n as nat, |i: int| i), Seq::new(n as nat, |i: int| 0nat)),
{
    let mut r: Vec<usize> = Vec::new();
    let mut i: usize = 0;
    while i < n
        invariant
            i <= n,
            r@.len() == i,
            forall|k: int| 0 <= k < i ==> r@[k] == k,
        decreases n - i,
    {
        r.push(i);
        i += 1;
    }
    r
}

/// The root of the tree of `i`. The path to it is shortened on the way.
pub fn find(parent: &mut Vec<usize>, i: usize, label: Ghost<Seq<int>>, height: Ghost<Seq<nat>>) -> (r:
    usize)
    requires
        forest(old(parent)@, label@, height@),
        i < old(parent)@.len(),
    ensures
        r == label@[i as int],
        final(parent)@.len() == old(parent)@.len(),
        forest(final(parent)@, label@, height@),
    decreases height@[i as int],
{
    let up: usize = parent[i];
    if up == i {
        i
    } else {
        let root = find(parent, up, label, height);
        parent.set(i, root);
        root
    }
}

/// Joins the trees of `i` and `j`: the one of `i` is hung under the root of the other.
pub fn union(
    parent: &mut Vec<usize>,
    i: usize,
    j: usize,
    label: Ghost<Seq<int>>,
    height: Ghost<Seq<nat>>,
) -> (r: (Ghost<Seq<int>>, Ghost<Seq<nat>>))
    requires
        forest(old(parent)@, label@, height@),
        i < old(parent)@.len(),
        j < old(parent)@.len(),
    ensures
        final(parent)@.len() == old(parent)@.len(),
        r.0@ == relabelled(label@, label@[i as int], label@[j as int]),
        forest(final(parent)@, r.0@, r.1@),
{
    let root_i = find(parent, i, label, height);
    let root_j = find(parent, j, label, height);
    if root_i != root_j {
        let ghost before = parent@;
        parent.set(root_i, root_j);
        let ghost new_label = relabelled(label@, root_i as int, root_j as int);
        let ghost new_height = raised(label@, height@, root_i as int, root_j as int);
        proof {
            assert(before[root_i as int] == root_i && before[root_j as int] == root_j) by {
                assert(before[label@[i as int]] == label@[i as int]);
                assert(before[label@[j as int]] == label@[j as int]);
            }
            assert(label@[root_i as int] == root_i && label@[root_j as int] == root_j);
            assert forall|k: int| 0 <= k < parent@.len() implies {
                &&& parent@[k] < parent@.len()
                &&& 0 <= new_label[k] < parent@.len()
                &&& new_label[parent@[k] as int] == new_label[k]
                &&& parent@[new_label[k]] == new_label[k]
                &&& (parent@[k] == k <==> new_label[k] == k)
                &&& parent@[k] != k ==> new_height[parent@[k] as int] < new_height[k]
                &&& new_height[new_label[k]] <= new_height[k]
            } by {
                assert(before[k] < before.len());
                assert(label@[before[k] as int] == label@[k]);
                assert(before[label@[k]] == label@[k]);
                assert(label@[label@[k]] == label@[k]);
            }
        }
        (Ghost(new_label), Ghost(new_height))
    } else {
        assert(relabelled(label@, root_i as int, root_j as int) =~= label@);
        (label, height)
    }
}

} // verus!
