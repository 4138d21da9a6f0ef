//! How a tree of lists lies in the arena, and how it is read back.
//!
//! A tree is laid out in depth-first order: a list takes the next free slot
//! of the arena, and the nested lists of its items follow, one whole subtree
//! after another, in item order.

use vstd::prelude::*;
use crate::list::{ItemView, ListView};
use crate::{ItemTree, ListTree};

verus! {

/// Number of lists owned, directly or indirectly, by one item.
pub open spec fn lists_of_item(item: ItemTree) -> nat
    decreases item,
{
    match item.list {
        Some(l) => 1 + lists_below(l.items),
        None => 0,
    }
}

/// Number of lists owned, directly or indirectly, by the given items.
pub open spec fn lists_below(items: Seq<ItemTree>) -> nat
    decreases items,
{
    if items.len() == 0 {
        0
    } else {
        lists_below(items.drop_last()) + lists_of_item(items.last())
    }
}

/// Number of lists in a tree, its root included.
pub open spec fn lists_in(tree: ListTree) -> nat {
    1 + lists_below(tree.items)
}

/// The arena holds `tree` from slot `at` on, as a list whose parent is
/// `parent`: the slot carries the tree's name and one arena item per tree
/// item, its cursor is on the first item if there is one, and the subtrees
/// of the items follow from slot `at + 1` on.
pub open spec fn holds_tree(lists: Seq<ListView>, at: nat, tree: ListTree, parent: Option<nat>) -> bool
    decreases tree,
{
    &&& at + lists_in(tree) <= lists.len()
    &&& lists[at as int].name == tree.name
    &&& lists[at as int].previous == parent
    &&& lists[at as int].selected == (if tree.items.len() > 0 {
        Some(0nat)
    } else {
        None
    })
    &&& holds_items(lists, lists[at as int].items, at, at + 1, tree.items)
}

/// `refs` are the arena items that stand for `items` in the list at slot
/// `owner`, and the subtrees of `items` are laid out one after another from
/// slot `first` on.
pub open spec fn holds_items(
    lists: Seq<ListView>,
    refs: Seq<ItemView>,
    owner: nat,
    first: nat,
    items: Seq<ItemTree>,
) -> bool
    decreases items,
{
    &&& refs.len() == items.len()
    &&& forall|k: int|
        #![trigger refs[k]]
        #![trigger items[k]]
        0 <= k < items.len() ==> holds_item(
            lists,
            refs[k],
            owner,
            first + lists_below(items.take(k)),
            items[k],
        )
}

/// `r` stands for `item` in the list at slot `owner`: it carries the same id
/// and name, and it refers to slot `at`, which holds the item's nested list,
/// exactly when the item has one.
pub open spec fn holds_item(
    lists: Seq<ListView>,
    r: ItemView,
    owner: nat,
    at: nat,
    item: ItemTree,
) -> bool
    decreases item,
{
    &&& r.id == item.id
    &&& r.name == item.name
    &&& match item.list {
        Some(l) => r.list_index == Some(at) && holds_tree(lists, at, l, Some(owner)),
        None => r.list_index is None,
    }
}

/// Every nested-list reference in the arena names a later, existing list.
pub open spec fn refs_ascend(lists: Seq<ListView>) -> bool {
    forall|i: int, k: int|
        0 <= i < lists.len() && 0 <= k < lists[i].items.len() ==> ((
        #[trigger] lists[i].items[k]).list_index matches Some(j) ==> i < j < lists.len())
}

/// The caller-facing items that the arena items `refs` stand for. A
/// reference is followed when it names an existing slot at or above
/// `floor`; the items found there are read with the floor raised past that
/// slot.
pub open spec fn rebuild_items(lists: Seq<ListView>, refs: Seq<ItemView>, floor: nat) -> Seq<ItemTree>
    decreases lists.len() - floor,
{
    Seq::new(
        refs.len(),
        |k: int|
            ItemTree {
                id: refs[k].id,
                name: refs[k].name,
                list: match refs[k].list_index {
                    Some(j) => if floor <= j < lists.len() {
                        Some(
                            ListTree {
                                name: lists[j as int].name,
                                items: rebuild_items(lists, lists[j as int].items, j + 1),
                            },
                        )
                    } else {
                        None
                    },
                    None => None,
                },
            },
    )
}

/// The caller-facing list that slot `at` of the arena stands for.
pub open spec fn rebuild_list(lists: Seq<ListView>, at: nat) -> ListTree {
    ListTree { name: lists[at as int].name, items: rebuild_items(lists, lists[at as int].items, at + 1) }
}

/// The lists below the first `k + 1` items are those below the first `k`
/// and those of item `k`.
pub proof fn lemma_lists_below_step(items: Seq<ItemTree>, k: int)
    requires
        0 <= k < items.len(),
    ensures
        lists_below(items.take(k + 1)) == lists_below(items.take(k)) + lists_of_item(items[k]),
{
    assert(items.take(k + 1).drop_last() =~= items.take(k));
}

/// A prefix of the items owns no more lists than all of them.
pub proof fn lemma_lists_below_prefix(items: Seq<ItemTree>, k: int)
    requires
        0 <= k <= items.len(),
    ensures
        lists_below(items.take(k)) <= lists_below(items),
    decreases items.len() - k,
{
    if k == items.len() {
        assert(items.take(k) =~= items);
    } else {
        lemma_lists_below_step(items, k);
        lemma_lists_below_prefix(items, k + 1);
    }
}

/// A shorter prefix of the items owns no more lists than a longer one.
pub proof fn lemma_lists_below_grows(items: Seq<ItemTree>, k: int, m: int)
    requires
        0 <= k <= m <= items.len(),
    ensures
        lists_below(items.take(k)) <= lists_below(items.take(m)),
{
    lemma_lists_below_prefix(items.take(m), k);
    assert(items.take(m).take(k) =~= items.take(k));
}

/// The subtree of item `k` lies within the slots taken by all the items.
pub proof fn lemma_subtree_within(items: Seq<ItemTree>, k: int)
    requires
        0 <= k < items.len(),
    ensures
        lists_below(items.take(k)) + lists_of_item(items[k]) <= lists_below(items),
{
    lemma_lists_below_step(items, k);
    lemma_lists_below_prefix(items, k + 1);
}

/// A tree that one arena holds is held by every arena that agrees with it
/// on the slots the tree takes.
pub proof fn lemma_holds_tree_frame(
    a: Seq<ListView>,
    b: Seq<ListView>,
    at: nat,
    tree: ListTree,
    parent: Option<nat>,
)
    requires
        holds_tree(a, at, tree, parent),
        at + lists_in(tree) <= b.len(),
        forall|i: int| at <= i < at + lists_in(tree) ==> a[i] == b[i],
    ensures
        holds_tree(b, at, tree, parent),
    decreases tree,
{
    let refs = a[at as int].items;
    assert forall|k: int| 0 <= k < tree.items.len() implies holds_item(
        b,
        #[trigger] refs[k],
        at,
        (at + 1) + lists_below(tree.items.take(k)),
        tree.items[k],
    ) by {
        let slot = (at + 1) + lists_below(tree.items.take(k));
        lemma_subtree_within(tree.items, k);
        if let Some(l) = tree.items[k].list {
            lemma_holds_tree_frame(a, b, slot, l, Some(at));
        }
    }
}

/// Items that one arena holds are held by every arena that agrees with it
/// on the slots their subtrees take.
pub proof fn lemma_holds_items_frame(
    a: Seq<ListView>,
    b: Seq<ListView>,
    refs: Seq<ItemView>,
    owner: nat,
    first: nat,
    items: Seq<ItemTree>,
)
    requires
        holds_items(a, refs, owner, first, items),
        first + lists_below(items) <= a.len(),
        first + lists_below(items) <= b.len(),
        forall|i: int| first <= i < first + lists_below(items) ==> a[i] == b[i],
    ensures
        holds_items(b, refs, owner, first, items),
{
    assert forall|k: int| 0 <= k < items.len() implies holds_item(
        b,
        #[trigger] refs[k],
        owner,
        first + lists_below(items.take(k)),
        items[k],
    ) by {
        let slot = first + lists_below(items.take(k));
        lemma_subtree_within(items, k);
        if let Some(l) = items[k].list {
            lemma_holds_tree_frame(a, b, slot, l, Some(owner));
        }
    }
}

/// The references of held items are sound: each names an existing slot
/// from `first` on whose parent is the owner, and no two of them name the
/// same slot.
pub proof fn lemma_held_items_are_sound(
    lists: Seq<ListView>,
    refs: Seq<ItemView>,
    owner: nat,
    first: nat,
    items: Seq<ItemTree>,
)
    requires
        holds_items(lists, refs, owner, first, items),
    ensures
        forall|k: int|
            0 <= k < refs.len() ==> ((#[trigger] refs[k]).list_index matches Some(j) ==> first <= j
                < lists.len() && lists[j as int].previous == Some(owner)),
        forall|k: int, m: int|
            0 <= k < m < refs.len() ==> ((#[trigger] refs[k]).list_index is Some
                ==> refs[k].list_index != (#[trigger] refs[m]).list_index),
{
    assert forall|k: int, m: int|
        0 <= k < m < refs.len() && (#[trigger] refs[k]).list_index is Some implies refs[k].list_index
        != (#[trigger] refs[m]).list_index by {
        lemma_lists_below_step(items, k);
        lemma_lists_below_grows(items, k + 1, m);
    }
}

/// Reading back the items that stand for a tree's items gives those items.
pub proof fn lemma_rebuild_held_items(
    lists: Seq<ListView>,
    refs: Seq<ItemView>,
    owner: nat,
    first: nat,
    items: Seq<ItemTree>,
    floor: nat,
)
    requires
        holds_items(lists, refs, owner, first, items),
        floor <= first,
    ensures
        rebuild_items(lists, refs, floor) == items,
    decreases items,
{
    let rebuilt = rebuild_items(lists, refs, floor);
    assert forall|k: int| 0 <= k < items.len() implies rebuilt[k] == items[k] by {
        let slot = first + lists_below(items.take(k));
        if let Some(l) = items[k].list {
            lemma_rebuild_held_tree(lists, slot, l, Some(owner));
        }
    }
}

/// Reading back a slot that holds a tree gives that tree: flattening
/// followed by reconstruction preserves every name and id, the order of the
/// items and the shape of the nesting.
pub proof fn lemma_rebuild_held_tree(lists: Seq<ListView>, at: nat, tree: ListTree, parent: Option<nat>)
    requires
        holds_tree(lists, at, tree, parent),
    ensures
        rebuild_list(lists, at) == tree,
    decreases tree,
{
    lemma_rebuild_held_items(lists, lists[at as int].items, at, at + 1, tree.items, at + 1);
}

/// Lists that nothing refers to do not show in what is read back: appending
/// a list to an arena changes the reading of no list that was there before.
pub proof fn lemma_rebuild_ignores_appended(lists: Seq<ListView>, extra: ListView, at: nat)
    requires
        refs_ascend(lists),
        at < lists.len(),
    ensures
        rebuild_list(lists.push(extra), at) == rebuild_list(lists, at),
    decreases lists.len() - at,
{
    let refs = lists[at as int].items;
    let before = rebuild_items(lists, refs, at + 1);
    let after = rebuild_items(lists.push(extra), refs, at + 1);
    assert forall|k: int| 0 <= k < refs.len() implies #[trigger] after[k] == before[k] by {
        if let Some(j) = lists[at as int].items[k].list_index {
            lemma_rebuild_ignores_appended(lists, extra, j);
        }
    }
    assert(after =~= before);
}

/// Where references lead to later lists, the items of a list are read back
/// the same from any floor up to the slot after that list.
pub proof fn lemma_rebuild_floor(lists: Seq<ListView>, at: nat, floor: nat)
    requires
        refs_ascend(lists),
        at < lists.len(),
        floor <= at + 1,
    ensures
        rebuild_items(lists, lists[at as int].items, floor) == rebuild_list(lists, at).items,
{
    let refs = lists[at as int].items;
    assert(rebuild_items(lists, refs, floor) =~= rebuild_items(lists, refs, at + 1));
}

} // verus!
