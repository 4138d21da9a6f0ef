//! The engine as a mathematical state: the arena, the list on show and the
//! depth, the rules they keep, and the state each operation leads to.

use vstd::prelude::*;
use crate::layout::rebuild_list;
use crate::list::{lemma_selection_steps, ItemView, ListView};
use crate::options::{page_options_at, PageOptionsView};

verus! {

/// Structural invariant of an arena.
///
/// Every cursor points at an item of its own list. A parent index is
/// smaller than the index of the list that carries it, so the first list
/// has no parent. Every nested-list reference names a later, existing list,
/// that list's parent is the list holding the reference, and no other item
/// refers to it: the references form a tree.
pub open spec fn arena_wf(lists: Seq<ListView>) -> bool {
    &&& forall|i: int|
        0 <= i < lists.len() ==> {
            &&& (#[trigger] lists[i]).wf()
            &&& lists[i].refs_distinct()
            &&& lists[i].previous matches Some(p) ==> p < i
        }
    &&& forall|i: int, k: int|
        0 <= i < lists.len() && 0 <= k < lists[i].items.len() ==> (
        (#[trigger] lists[i].items[k]).list_index matches Some(j) ==> i < j < lists.len()
            && lists[j as int].previous == Some(i as nat))
}

/// Number of parent links between list `i` and the first list.
pub open spec fn depth_of(lists: Seq<ListView>, i: nat) -> nat
    decreases i,
{
    if i < lists.len() {
        match lists[i as int].previous {
            Some(p) => if p < i {
                1 + depth_of(lists, p)
            } else {
                0
            },
            None => 0,
        }
    } else {
        0
    }
}

/// Mathematical value of the engine.
pub struct AppView {
    /// The arena. Records are only ever appended.
    pub lists: Seq<ListView>,
    /// Index of the list on show.
    pub current: nat,
    /// Nesting level of the list on show.
    pub depth: nat,
    /// Configuration, one entry per depth.
    pub options: Seq<PageOptionsView>,
    /// Whether a session is in progress.
    pub running: bool,
    /// The transient notice left by the last save.
    pub notification: Option<Seq<char>>,
    /// Whether a save handler is registered.
    pub has_save_handler: bool,
    /// Whether the session is taking text for a new item.
    pub adding: bool,
    /// The text typed so far for a new item.
    pub input: Seq<char>,
}

impl AppView {
    /// The arena is well formed, the list on show exists, and the recorded
    /// depth is the number of parent links above it.
    pub open spec fn wf(self) -> bool {
        &&& arena_wf(self.lists)
        &&& self.current < self.lists.len()
        &&& self.depth == depth_of(self.lists, self.current)
    }

    /// The list on show.
    pub open spec fn current_list(self) -> ListView {
        self.lists[self.current as int]
    }

    /// The configuration in force at the present depth.
    pub open spec fn page_options(self) -> PageOptionsView {
        page_options_at(self.options, self.depth)
    }

    /// The item under the cursor of the list on show.
    pub open spec fn selected_item(self) -> Option<ItemView> {
        self.current_list().selected_item()
    }

    /// The arena index of the nested list of the item under the cursor.
    pub open spec fn selected_list_index(self) -> Option<nat> {
        match self.selected_item() {
            Some(item) => item.list_index,
            None => None,
        }
    }

    /// The same state with list `i` replaced.
    pub open spec fn with_list(self, i: nat, list: ListView) -> AppView {
        AppView { lists: self.lists.update(i as int, list), ..self }
    }

    /// The state after an empty, parentless list named `name` is appended to
    /// the arena.
    pub open spec fn allocate(self, name: Seq<char>) -> AppView {
        AppView { lists: self.lists.push(ListView::empty(name)), ..self }
    }

    /// The state after an empty list named `name` is appended to the arena
    /// with list `parent` as its parent.
    pub open spec fn allocate_below(self, name: Seq<char>, parent: nat) -> AppView {
        AppView {
            lists: self.lists.push(ListView { previous: Some(parent), ..ListView::empty(name) }),
            ..self
        }
    }

    /// The state after the cursor of the list on show takes one cyclic step
    /// towards the end.
    pub open spec fn advance(self) -> AppView {
        self.with_list(self.current, self.current_list().advance())
    }

    /// The state after the cursor of the list on show takes one cyclic step
    /// towards the start.
    pub open spec fn retreat(self) -> AppView {
        self.with_list(self.current, self.current_list().retreat())
    }

    /// The state after the cursor of the list on show is removed.
    pub open spec fn clear_selection(self) -> AppView {
        self.with_list(self.current, self.current_list().select(None))
    }

    /// The state after an attempt to open the nested list of the item under
    /// the cursor.
    ///
    /// Nothing changes when editing is disabled at this depth, when no item
    /// is selected, or when the selected item has no nested list. Otherwise
    /// the nested list goes on show one level deeper, the notice is cleared,
    /// and a nested list that has items but no cursor gets its cursor on the
    /// first item.
    pub open spec fn descend(self) -> AppView {
        if self.page_options().disable_edit {
            self
        } else {
            match self.selected_list_index() {
                Some(j) => {
                    let child = self.lists[j as int];
                    AppView {
                        lists: if child.selected is None && child.items.len() > 0 {
                            self.lists.update(j as int, child.select(Some(0nat)))
                        } else {
                            self.lists
                        },
                        current: j,
                        depth: self.depth + 1,
                        notification: None,
                        ..self
                    }
                },
                None => self,
            }
        }
    }

    /// Whether the item under the cursor of list `p` refers to a list
    /// without items.
    pub open spec fn selected_child_is_empty(self, p: nat) -> bool {
        match self.lists[p as int].selected_item() {
            Some(item) => match item.list_index {
                Some(j) => self.lists[j as int].items.len() == 0,
                None => false,
            },
            None => false,
        }
    }

    /// The state after an attempt to return to the parent list.
    ///
    /// Nothing changes when the list on show has no parent. Otherwise the
    /// parent goes on show one level up and the notice is cleared; if the
    /// item under the parent's cursor refers to a list without items, that
    /// reference is dropped.
    pub open spec fn ascend(self) -> AppView {
        match self.current_list().previous {
            Some(p) => AppView {
                lists: if self.selected_child_is_empty(p) {
                    self.lists.update(p as int, self.lists[p as int].link_selected(None))
                } else {
                    self.lists
                },
                current: p,
                depth: (self.depth - 1) as nat,
                notification: None,
                ..self
            },
            None => self,
        }
    }

    /// The state after the item under the cursor, if it has no nested list
    /// yet, is given a fresh one: an empty list named after the item is
    /// appended to the arena with the list on show as its parent, and the
    /// item refers to it.
    pub open spec fn ensure_selected_sublist(self) -> AppView {
        match self.selected_item() {
            Some(item) => match item.list_index {
                Some(_) => self,
                None => {
                    let j = self.lists.len();
                    self.allocate_below(item.name, self.current).with_list(
                        self.current,
                        self.current_list().link_selected(Some(j)),
                    )
                },
            },
            None => self,
        }
    }

    /// The state after an attempt to add an item below the item under the
    /// cursor.
    ///
    /// Nothing changes when adding is disabled at this depth or when no
    /// item is selected. Otherwise the selected item is first given a nested
    /// list if it has none, and a new item with the given name and id, and
    /// no nested list of its own, is appended to that nested list.
    pub open spec fn add_item(self, name: Seq<char>, id: Seq<char>) -> AppView {
        if self.page_options().disable_add {
            self
        } else {
            match self.selected_item() {
                Some(_) => {
                    let linked = self.ensure_selected_sublist();
                    let j = linked.selected_list_index()->0;
                    linked.with_list(
                        j,
                        linked.lists[j as int].push(ItemView { id, name, list_index: None }),
                    )
                },
                None => self,
            }
        }
    }

    /// The same state showing `notice`.
    pub open spec fn with_notice(self, notice: Option<Seq<char>>) -> AppView {
        AppView { notification: notice, ..self }
    }

    /// The state after an attempt to save to which the handler answered
    /// `answer`: nothing changes when saving is disabled at this depth,
    /// otherwise the answer becomes the notice, and no answer clears it.
    pub open spec fn saved(self, answer: Option<Seq<char>>) -> AppView {
        if self.page_options().disable_save {
            self
        } else {
            self.with_notice(answer)
        }
    }

    /// The state after an attempt to delete the item under the cursor.
    ///
    /// Nothing changes when deleting is disabled at this depth or when no
    /// item is selected. Otherwise the item leaves the list on show, and
    /// whatever nested list it had is no longer referred to. If items
    /// remain, the cursor returns to the first of them; if none remain, the
    /// cursor disappears and the state is that of returning to the parent.
    pub open spec fn delete_selected(self) -> AppView {
        if self.page_options().disable_delete {
            self
        } else {
            match self.current_list().selected {
                Some(_) => {
                    let removed = self.with_list(self.current, self.current_list().remove_selected());
                    if removed.current_list().items.len() == 0 {
                        removed.ascend()
                    } else {
                        removed
                    }
                },
                None => self,
            }
        }
    }
}

/// A list lies at least as deep in the arena as it is nested.
pub proof fn lemma_depth_bounded(lists: Seq<ListView>, i: nat)
    ensures
        depth_of(lists, i) <= i,
    decreases i,
{
    if i < lists.len() {
        if let Some(p) = lists[i as int].previous {
            if p < i {
                lemma_depth_bounded(lists, p);
            }
        }
    }
}

/// The depth of a list depends only on the parent links at or below it.
pub proof fn lemma_depth_frame(a: Seq<ListView>, b: Seq<ListView>, i: nat)
    requires
        i < a.len(),
        i < b.len(),
        forall|k: int| 0 <= k <= i ==> (#[trigger] a[k]).previous == b[k].previous,
    ensures
        depth_of(a, i) == depth_of(b, i),
    decreases i,
{
    if let Some(p) = a[i as int].previous {
        if p < i {
            lemma_depth_frame(a, b, p);
        }
    }
}

/// Replacing one list keeps the arena well formed, provided the new list is
/// well formed, its parent index is smaller than its own index, whatever
/// refers to it agrees with its parent, and its own references are sound
/// and distinct.
pub proof fn lemma_update_keeps_arena(lists: Seq<ListView>, i: int, list: ListView)
    requires
        arena_wf(lists),
        0 <= i < lists.len(),
        list.wf(),
        list.refs_distinct(),
        list.previous matches Some(p) ==> p < i,
        list.previous != lists[i].previous ==> forall|r: int, k: int|
            0 <= r < lists.len() && 0 <= k < lists[r].items.len() ==> (
            #[trigger] lists[r].items[k]).list_index != Some(i as nat),
        forall|k: int|
            0 <= k < list.items.len() ==> ((#[trigger] list.items[k]).list_index matches Some(j)
                ==> i < j < lists.len() && lists[j as int].previous == Some(i as nat)),
    ensures
        arena_wf(lists.update(i, list)),
{
    let after = lists.update(i, list);
    assert forall|r: int, k: int|
        0 <= r < after.len() && 0 <= k < after[r].items.len() implies (
    (#[trigger] after[r].items[k]).list_index matches Some(j) ==> r < j < after.len()
        && after[j as int].previous == Some(r as nat)) by {}
}

/// Appending a list without items keeps the arena well formed, provided its
/// parent, if it has one, is an existing list.
pub proof fn lemma_push_keeps_arena(lists: Seq<ListView>, list: ListView)
    requires
        arena_wf(lists),
        list.items.len() == 0,
        list.selected is None,
        list.previous matches Some(p) ==> p < lists.len(),
    ensures
        arena_wf(lists.push(list)),
{
    let after = lists.push(list);
    assert forall|r: int, k: int|
        0 <= r < after.len() && 0 <= k < after[r].items.len() implies (
    (#[trigger] after[r].items[k]).list_index matches Some(j) ==> r < j < after.len()
        && after[j as int].previous == Some(r as nat)) by {}
}

/// Moving or removing the cursor of one list keeps the arena well formed.
pub proof fn lemma_select_keeps_arena(lists: Seq<ListView>, i: int, index: Option<nat>)
    requires
        arena_wf(lists),
        0 <= i < lists.len(),
        index matches Some(s) ==> s < lists[i].items.len(),
    ensures
        arena_wf(lists.update(i, lists[i].select(index))),
{
    lemma_update_keeps_arena(lists, i, lists[i].select(index));
}

/// Dropping the nested-list reference of the item under a cursor keeps the
/// arena well formed.
pub proof fn lemma_unlink_keeps_arena(lists: Seq<ListView>, i: int)
    requires
        arena_wf(lists),
        0 <= i < lists.len(),
    ensures
        arena_wf(lists.update(i, lists[i].link_selected(None))),
{
    lemma_update_keeps_arena(lists, i, lists[i].link_selected(None));
}

/// Taking the item under a cursor out of its list keeps the arena well
/// formed.
pub proof fn lemma_remove_keeps_arena(lists: Seq<ListView>, i: int)
    requires
        arena_wf(lists),
        0 <= i < lists.len(),
    ensures
        arena_wf(lists.update(i, lists[i].remove_selected())),
{
    lemma_update_keeps_arena(lists, i, lists[i].remove_selected());
}

/// Appending an item that has no nested list keeps the arena well formed.
pub proof fn lemma_push_item_keeps_arena(lists: Seq<ListView>, i: int, item: ItemView)
    requires
        arena_wf(lists),
        0 <= i < lists.len(),
        item.list_index is None,
    ensures
        arena_wf(lists.update(i, lists[i].push(item))),
{
    lemma_update_keeps_arena(lists, i, lists[i].push(item));
}

/// Replacing a list by one with the same parent changes no depth.
pub proof fn lemma_update_keeps_depth(lists: Seq<ListView>, i: int, list: ListView, at: nat)
    requires
        0 <= i < lists.len(),
        at < lists.len(),
        list.previous == lists[i].previous,
    ensures
        depth_of(lists.update(i, list), at) == depth_of(lists, at),
{
    lemma_depth_frame(lists, lists.update(i, list), at);
}

/// Every cursor move keeps the state well formed.
pub proof fn lemma_move_selection_wf(s: AppView)
    requires
        s.wf(),
    ensures
        s.advance().wf(),
        s.retreat().wf(),
        s.clear_selection().wf(),
{
    let c = s.current as int;
    if s.current_list().selected is Some {
        lemma_selection_steps(s.current_list());
    }
    lemma_select_keeps_arena(s.lists, c, s.current_list().advance().selected);
    lemma_select_keeps_arena(s.lists, c, s.current_list().retreat().selected);
    lemma_select_keeps_arena(s.lists, c, None);
    lemma_update_keeps_depth(s.lists, c, s.current_list().advance(), s.current);
    lemma_update_keeps_depth(s.lists, c, s.current_list().retreat(), s.current);
    lemma_update_keeps_depth(s.lists, c, s.current_list().select(None), s.current);
}

/// Opening a nested list keeps the state well formed.
pub proof fn lemma_descend_wf(s: AppView)
    requires
        s.wf(),
    ensures
        s.descend().wf(),
{
    if !s.page_options().disable_edit {
        if let Some(j) = s.selected_list_index() {
            let child = s.lists[j as int];
            if child.selected is None && child.items.len() > 0 {
                lemma_select_keeps_arena(s.lists, j as int, Some(0nat));
                lemma_update_keeps_depth(s.lists, j as int, child.select(Some(0nat)), j);
            }
        }
    }
}

/// Returning to the parent keeps the state well formed.
pub proof fn lemma_ascend_wf(s: AppView)
    requires
        s.wf(),
    ensures
        s.ascend().wf(),
{
    if let Some(p) = s.current_list().previous {
        if s.selected_child_is_empty(p) {
            lemma_unlink_keeps_arena(s.lists, p as int);
            lemma_update_keeps_depth(s.lists, p as int, s.lists[p as int].link_selected(None), p);
        }
    }
}

/// Giving the selected item a nested list keeps the state well formed, and
/// afterwards the selected item, if there is one, has a nested list.
pub proof fn lemma_ensure_selected_sublist_wf(s: AppView)
    requires
        s.wf(),
    ensures
        s.ensure_selected_sublist().wf(),
        s.selected_item() is Some ==> s.ensure_selected_sublist().selected_list_index() is Some,
        s.ensure_selected_sublist().selected_list_index() matches Some(j) ==> s.current < j
            < s.ensure_selected_sublist().lists.len(),
{
    if let Some(item) = s.selected_item() {
        if item.list_index is None {
            let j = s.lists.len();
            let fresh = ListView { previous: Some(s.current), ..ListView::empty(item.name) };
            let grown = s.lists.push(fresh);
            lemma_push_keeps_arena(s.lists, fresh);
            let linked = s.current_list().link_selected(Some(j));
            lemma_update_keeps_arena(grown, s.current as int, linked);
            lemma_depth_frame(s.lists, grown.update(s.current as int, linked), s.current);
        }
    }
}

/// Adding an item keeps the state well formed.
pub proof fn lemma_add_item_wf(s: AppView, name: Seq<char>, id: Seq<char>)
    requires
        s.wf(),
    ensures
        s.add_item(name, id).wf(),
{
    if !s.page_options().disable_add && s.selected_item() is Some {
        lemma_ensure_selected_sublist_wf(s);
        let linked = s.ensure_selected_sublist();
        let j = linked.selected_list_index()->0;
        let item = ItemView { id, name, list_index: None };
        lemma_push_item_keeps_arena(linked.lists, j as int, item);
        lemma_update_keeps_depth(linked.lists, j as int, linked.lists[j as int].push(item), s.current);
    }
}

/// Deleting the selected item keeps the state well formed.
pub proof fn lemma_delete_selected_wf(s: AppView)
    requires
        s.wf(),
    ensures
        s.delete_selected().wf(),
{
    if !s.page_options().disable_delete && s.current_list().selected is Some {
        let c = s.current as int;
        lemma_remove_keeps_arena(s.lists, c);
        lemma_update_keeps_depth(s.lists, c, s.current_list().remove_selected(), s.current);
        let removed = s.with_list(s.current, s.current_list().remove_selected());
        lemma_ascend_wf(removed);
    }
}

/// Adding below an item that has no nested list creates one: afterwards the
/// item refers to a new list at the end of the arena, whose parent is the
/// list on show and whose only item carries the given id and name.
pub proof fn lemma_add_creates_sublist(s: AppView, name: Seq<char>, id: Seq<char>)
    requires
        s.wf(),
        !s.page_options().disable_add,
        s.selected_item() is Some,
        s.selected_list_index() is None,
    ensures
        s.add_item(name, id).lists.len() == s.lists.len() + 1,
        s.add_item(name, id).selected_list_index() == Some(s.lists.len()),
        s.add_item(name, id).lists[s.lists.len() as int].previous == Some(s.current),
        s.add_item(name, id).lists[s.lists.len() as int].items == seq![
            ItemView { id, name, list_index: None },
        ],
        s.add_item(name, id).current == s.current,
        s.add_item(name, id).depth == s.depth,
{
}

/// An operation that the configuration disables at the present depth
/// changes nothing, whatever is selected.
pub proof fn lemma_disabled_operations_are_inert(s: AppView, name: Seq<char>, id: Seq<char>)
    ensures
        s.page_options().disable_delete ==> s.delete_selected() == s,
        s.page_options().disable_add ==> s.add_item(name, id) == s,
        s.page_options().disable_edit ==> s.descend() == s,
        forall|answer: Option<Seq<char>>|
            s.page_options().disable_save ==> #[trigger] s.saved(answer) == s,
{
}

/// Deleting the only item of a list that has a parent closes the list: the
/// parent goes on show and the depth drops by one.
pub proof fn lemma_delete_last_item_closes(s: AppView)
    requires
        s.wf(),
        !s.page_options().disable_delete,
        s.current_list().items.len() == 1,
        s.current_list().selected is Some,
        s.current_list().previous is Some,
    ensures
        s.delete_selected().current == s.current_list().previous->0,
        s.depth >= 1,
        s.delete_selected().depth == s.depth - 1,
        s.delete_selected().lists[s.current as int].items.len() == 0,
        s.delete_selected().lists[s.current as int].selected is None,
{
}

/// A nested list that is emptied by deleting is dropped from the hierarchy:
/// when the last item of the list on show is deleted and the item under the
/// parent's cursor is the one that refers to this list, that item has no
/// nested list afterwards, neither in the arena nor in the tree read back
/// from it.
pub proof fn lemma_emptied_list_is_unlinked(s: AppView)
    requires
        s.wf(),
        !s.page_options().disable_delete,
        s.current_list().items.len() == 1,
        s.current_list().selected is Some,
        s.current_list().previous is Some,
        s.lists[s.current_list().previous->0 as int].selected_item() matches Some(item)
            && item.list_index == Some(s.current),
    ensures
        s.delete_selected().current == s.current_list().previous->0,
        s.delete_selected().selected_item() is Some,
        s.delete_selected().selected_list_index() is None,
        rebuild_list(s.delete_selected().lists, s.delete_selected().current).items[
            s.delete_selected().current_list().selected->0 as int
        ].list is None,
{
}

/// Every list of `before` is still in `after`, at the same index, under the
/// same name and with the same parent: slots are neither dropped nor reused.
pub open spec fn keeps_slots(before: Seq<ListView>, after: Seq<ListView>) -> bool {
    &&& before.len() <= after.len()
    &&& forall|i: int|
        0 <= i < before.len() ==> (#[trigger] after[i]).name == before[i].name && after[i].previous
            == before[i].previous
}

/// No operation of the engine drops or reuses a slot of the arena.
pub proof fn lemma_operations_keep_slots(s: AppView, name: Seq<char>, id: Seq<char>)
    requires
        s.wf(),
    ensures
        keeps_slots(s.lists, s.advance().lists),
        keeps_slots(s.lists, s.retreat().lists),
        keeps_slots(s.lists, s.clear_selection().lists),
        keeps_slots(s.lists, s.descend().lists),
        keeps_slots(s.lists, s.ascend().lists),
        keeps_slots(s.lists, s.add_item(name, id).lists),
        keeps_slots(s.lists, s.delete_selected().lists),
        keeps_slots(s.lists, s.allocate(name).lists),
{
    lemma_ensure_selected_sublist_wf(s);
}

} // verus!
