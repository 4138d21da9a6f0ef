//! A navigable hierarchy of named lists.
//!
//! The caller describes the hierarchy as a tree: a [`List`] of [`Item`]s,
//! each of which may own a nested list. The engine works on a flat arena of
//! lists addressed by index, in which an item refers to its nested list by
//! the list's index and a list knows the index of its parent.
//!
//! * [`list`] holds the records of the arena and the moves of the cursor
//!   within one list.
//! * [`options`] holds the per-depth configuration.
//! * [`state`] describes the engine as a mathematical state, the rules the
//!   state keeps and the state each operation leads to.
//! * [`app`] is the engine itself.
//! * [`layout`] says how a tree lies in the arena and how it is read back.
//! * [`session`] turns key presses into operations.
//! * [`screen`] words the title line and the usage hints.
//!
//! The crate root holds the caller's tree and the conversions between the
//! tree and the arena.

use vstd::prelude::*;
use crate::app::{lists_view, App};
use crate::layout::{
    holds_item, holds_items, holds_tree, lemma_held_items_are_sound,
    lemma_holds_items_frame, lemma_holds_tree_frame, lemma_lists_below_step,
    lemma_rebuild_held_tree, lists_below, lists_in, rebuild_items, rebuild_list, refs_ascend,
};
use crate::options::{page_options_view, PageOptions};
use crate::list::{items_view, Item as InternItem, List as InternList};
use crate::state::{lemma_depth_frame, lemma_update_keeps_arena, AppView};

pub mod app;
pub mod layout;
pub mod list;
pub mod options;
pub mod screen;
pub mod session;
pub mod state;

verus! {

/// Mathematical value of a caller-facing list.
pub struct ListTree {
    pub name: Seq<char>,
    pub items: Seq<ItemTree>,
}

/// Mathematical value of a caller-facing item.
pub struct ItemTree {
    pub id: Seq<char>,
    pub name: Seq<char>,
    pub list: Option<ListTree>,
}

/// A named list of items, each of which may own a nested list.
#[derive(Debug)]
pub struct List {
    pub name: String,
    pub items: Vec<Item>,
}

/// An entry of a list.
#[derive(Debug)]
pub struct Item {
    pub id: String,
    pub name: String,
    pub list: Option<List>,
}

/// The value of a caller-facing list: its name and the values of its items.
pub open spec fn list_tree(list: List) -> ListTree
    decreases list,
{
    ListTree {
        name: list.name@,
        items: Seq::new(
            list.items@.len(),
            |i: int|
                if 0 <= i < list.items@.len() {
                    item_tree(list.items@[i])
                } else {
                    arbitrary()
                },
        ),
    }
}

/// The value of a caller-facing item: its id, its name and the value of its
/// nested list.
pub open spec fn item_tree(item: Item) -> ItemTree
    decreases item,
{
    ItemTree {
        id: item.id@,
        name: item.name@,
        list: match item.list {
            Some(l) => Some(list_tree(l)),
            None => None,
        },
    }
}

impl View for List {
    type V = ListTree;

    open spec fn view(&self) -> ListTree {
        list_tree(*self)
    }
}

impl View for Item {
    type V = ItemTree;

    open spec fn view(&self) -> ItemTree {
        item_tree(*self)
    }
}

impl Clone for List {
    fn clone(&self) -> (copy: List)
        ensures
            copy@ == self@,
        decreases self,
    {
        let mut items: Vec<Item> = Vec::new();
        let mut k: usize = 0;
        while k < self.items.len()
            invariant
                k <= self.items@.len(),
                items@.len() == k,
                forall|m: int| 0 <= m < k ==> items@[m]@ == self.items@[m]@,
            decreases self.items@.len() - k,
        {
            items.push(self.items[k].clone());
            k += 1;
        }
        let copy = List { name: self.name.clone(), items: items };
        assert(copy@.items =~= self@.items);
        copy
    }
}

impl Clone for Item {
    fn clone(&self) -> (copy: Item)
        ensures
            copy@ == self@,
        decreases self,
    {
        Item {
            id: self.id.clone(),
            name: self.name.clone(),
            list: match &self.list {
                Some(list) => Some(list.clone()),
                None => None,
            },
        }
    }
}

/// The values of a sequence of caller-facing items, in order.
pub open spec fn items_tree(items: Seq<Item>) -> Seq<ItemTree> {
    Seq::new(items.len(), |i: int| items[i]@)
}

impl List {
    /// A list with the given name and items.
    pub fn new(name: String, items: Vec<Item>) -> (list: List)
        ensures
            list.name == name,
            list.items == items,
            list@ == (ListTree { name: name@, items: items_tree(items@) }),
    {
        let list = List { name: name, items: items };
        assert(list@.items =~= items_tree(items@));
        list
    }
}

impl Item {
    /// An item with the given id and name that owns the given nested list.
    pub fn new(id: String, name: String, list: Option<List>) -> (item: Item)
        ensures
            item.id == id,
            item.name == name,
            item.list == list,
            item@ == (ItemTree {
                id: id@,
                name: name@,
                list: match list {
                    Some(l) => Some(l@),
                    None => None,
                },
            }),
    {
        Item { id: id, name: name, list: list }
    }
}

/// Receives the hierarchy when the user saves.
pub trait SaveHandler {
    /// Takes the saved hierarchy and may answer with a notice to show.
    fn saved(&self, root: List) -> Option<String>;
}

/// Builds the engine for a caller's tree: the tree is laid out in the arena
/// from slot zero on, and the root list goes on show at depth zero.
pub fn init_app(list: List) -> (app: App)
    ensures
        app@.wf(),
        holds_tree(app@.lists, 0, list@, None),
        app@.lists.len() == lists_in(list@),
        rebuild_list(app@.lists, 0) == list@,
        app@ == (AppView {
            lists: app@.lists,
            current: 0,
            depth: 0,
            options: Seq::empty(),
            running: false,
            notification: None,
            has_save_handler: false,
            adding: false,
            input: Seq::empty(),
        }),
{
    let root = InternList::new(list.name.clone());
    let mut app = App::new(root);
    let items = items_from_user(&mut app, 0, &list.items);
    let ghost grown = app@.lists;
    let ghost refs = items_view(items@);
    app.lists[0].items = items;
    if app.lists[0].items.len() > 0 {
        app.lists[0].selected = Some(0);
    }
    proof {
        assert(list@.items =~= items_tree(list.items@));
        let root_view = app@.lists[0];
        assert(app@.lists =~= grown.update(0, root_view));
        lemma_held_items_are_sound(grown, refs, 0, 1, list@.items);
        lemma_update_keeps_arena(grown, 0, root_view);
        lemma_holds_items_frame(grown, app@.lists, refs, 0, 1, list@.items);
        lemma_rebuild_held_tree(app@.lists, 0, list@, None);
    }
    app
}

/// Lays the subtrees of `user_items` out at the end of the arena and returns
/// the arena items that stand for them in the list at `current_list_index`.
///
/// Slots already in the arena are left as they are. The returned items are
/// not yet part of any list: the caller stores them.
pub fn items_from_user(app: &mut App, current_list_index: usize, user_items: &Vec<Item>) -> (items:
    Vec<InternItem>)
    requires
        old(app)@.wf(),
        current_list_index < old(app)@.lists.len(),
    ensures
        final(app)@.wf(),
        final(app)@ == (AppView { lists: final(app)@.lists, ..old(app)@ }),
        final(app)@.lists.len() == old(app)@.lists.len() + lists_below(items_tree(user_items@)),
        forall|i: int|
            0 <= i < old(app)@.lists.len() ==> (#[trigger] final(app)@.lists[i]) == old(app)@.lists[i],
        holds_items(
            final(app)@.lists,
            items_view(items@),
            current_list_index as nat,
            old(app)@.lists.len(),
            items_tree(user_items@),
        ),
    decreases user_items,
{
    let mut items: Vec<InternItem> = Vec::new();
    let ghost base = app@.lists.len();
    let ghost owner = current_list_index as nat;
    let ghost trees = items_tree(user_items@);
    let mut k: usize = 0;
    while k < user_items.len()
        invariant
            k <= user_items.len(),
            trees == items_tree(user_items@),
            base == old(app)@.lists.len(),
            owner == current_list_index,
            owner < base,
            app@.wf(),
            app@ == (AppView { lists: app@.lists, ..old(app)@ }),
            app@.lists.len() == base + lists_below(trees.take(k as int)),
            forall|i: int| 0 <= i < base ==> (#[trigger] app@.lists[i]) == old(app)@.lists[i],
            items@.len() == k,
            forall|m: int|
                0 <= m < k ==> holds_item(
                    app@.lists,
                    #[trigger] items_view(items@)[m],
                    owner,
                    base + lists_below(trees.take(m)),
                    trees[m],
                ),
        decreases user_items.len() - k,
    {
        let user_item = &user_items[k];
        let mut item = InternItem::new(user_item.id.clone(), user_item.name.clone());
        let ghost before = app@.lists;
        let ghost done = items_view(items@);
        proof {
            lemma_lists_below_step(trees, k as int);
        }
        match &user_item.list {
            Some(next_user_list) => {
                let list_index = app.add_list_below(next_user_list.name.clone(), current_list_index);
                item.list_index = Some(list_index);
                let sub_items = items_from_user(app, list_index, &next_user_list.items);
                let ghost filled = app@.lists;
                let ghost sub_refs = items_view(sub_items@);
                let ghost sub_trees = items_tree(next_user_list.items@);
                app.lists[list_index].items = sub_items;
                if app.lists[list_index].items.len() > 0 {
                    app.lists[list_index].selected = Some(0);
                }
                proof {
                    let slot = list_index as nat;
                    let stored = app@.lists[list_index as int];
                    assert(next_user_list@.items =~= sub_trees);
                    assert(app@.lists =~= filled.update(list_index as int, stored));
                    lemma_held_items_are_sound(filled, sub_refs, slot, slot + 1, sub_trees);
                    lemma_update_keeps_arena(filled, list_index as int, stored);
                    lemma_depth_frame(filled, app@.lists, app@.current);
                    lemma_holds_items_frame(filled, app@.lists, sub_refs, slot, slot + 1, sub_trees);
                }
            },
            None => {},
        }
        items.push(item);
        proof {
            let after = app@.lists;
            let refs = items_view(items@);
            assert forall|m: int| 0 <= m < k + 1 implies holds_item(
                after,
                #[trigger] refs[m],
                owner,
                base + lists_below(trees.take(m)),
                trees[m],
            ) by {
                if m < k {
                    let slot = base + lists_below(trees.take(m));
                    assert(holds_item(before, done[m], owner, slot, trees[m]));
                    if let Some(l) = trees[m].list {
                        lemma_holds_tree_frame(before, after, slot, l, Some(owner));
                    }
                }
            }
        }
        k += 1;
    }
    proof {
        assert(trees.take(k as int) =~= trees);
    }
    items
}

/// Reads back the caller-facing items that the arena items `items` stand
/// for, following every nested-list reference. The references within the
/// arena must lead to later lists, which rules out cycles.
pub fn items_to_user(lists: &Vec<InternList>, items: &Vec<InternItem>) -> (user_items: Vec<Item>)
    requires
        refs_ascend(lists_view(lists@)),
        forall|k: int|
            0 <= k < items@.len() ==> ((#[trigger] items@[k]).list_index matches Some(j) ==> j
                < lists@.len()),
    ensures
        items_tree(user_items@) == rebuild_items(lists_view(lists@), items_view(items@), 0),
{
    items_to_user_above(lists, items, 0)
}

/// Reads back `items`, none of which refers to a slot below `floor`.
fn items_to_user_above(lists: &Vec<InternList>, items: &Vec<InternItem>, floor: usize) -> (user_items:
    Vec<Item>)
    requires
        refs_ascend(lists_view(lists@)),
        forall|k: int|
            0 <= k < items@.len() ==> ((#[trigger] items@[k]).list_index matches Some(j) ==> floor
                <= j < lists@.len()),
    ensures
        items_tree(user_items@) == rebuild_items(lists_view(lists@), items_view(items@), floor as nat),
    decreases lists@.len() - floor,
{
    let mut user_items: Vec<Item> = Vec::new();
    let ghost arena = lists_view(lists@);
    let ghost refs = items_view(items@);
    let ghost rebuilt = rebuild_items(arena, refs, floor as nat);
    let mut k: usize = 0;
    while k < items.len()
        invariant
            k <= items.len(),
            arena == lists_view(lists@),
            refs == items_view(items@),
            rebuilt == rebuild_items(arena, refs, floor as nat),
            refs_ascend(arena),
            forall|m: int|
                0 <= m < items@.len() ==> ((#[trigger] items@[m]).list_index matches Some(j)
                    ==> floor <= j < lists@.len()),
            user_items@.len() == k,
            forall|m: int| 0 <= m < k ==> (#[trigger] user_items@[m])@ == rebuilt[m],
        decreases items.len() - k,
    {
        let item = &items[k];
        let mut user_item = Item::new(item.id.clone(), item.name.clone(), None);
        match item.list_index {
            Some(index) => {
                assert(index < lists.len());
                let nested = &lists[index];
                proof {
                    assert forall|m: int| 0 <= m < nested.items@.len() implies ((
                    #[trigger] nested.items@[m]).list_index matches Some(j) ==> index + 1 <= j
                        < lists@.len()) by {
                        assert(arena[index as int].items[m] == nested.items@[m]@);
                    }
                }
                let next_items = items_to_user_above(lists, &nested.items, index + 1);
                let next_user_list = List::new(nested.name.clone(), next_items);
                user_item.list = Some(next_user_list);
            },
            None => {},
        }
        user_items.push(user_item);
        k += 1;
    }
    user_items
}

/// The caller's handle on the engine.
pub struct UI {
    pub app: App,
}

impl UI {
    /// An engine for the caller's tree, with the root list on show.
    pub fn new(list: List) -> (ui: UI)
        ensures
            ui.app@.wf(),
            holds_tree(ui.app@.lists, 0, list@, None),
            ui.app@.lists.len() == lists_in(list@),
            rebuild_list(ui.app@.lists, 0) == list@,
            ui.app@ == (AppView {
                lists: ui.app@.lists,
                current: 0,
                depth: 0,
                options: Seq::empty(),
                running: false,
                notification: None,
                has_save_handler: false,
                adding: false,
                input: Seq::empty(),
            }),
    {
        UI { app: init_app(list) }
    }

    /// Replaces the configuration, one entry per nesting depth.
    pub fn set_page_options(&mut self, page_options: Vec<PageOptions>)
        ensures
            final(self).app@ == (AppView {
                options: page_options_view(page_options@),
                ..old(self).app@
            }),
            old(self).app@.wf() ==> final(self).app@.wf(),
    {
        self.app.options.page_options = page_options
    }

    /// Registers the handler that receives the hierarchy on save.
    pub fn on_save(&mut self, handler: Box<dyn SaveHandler>)
        ensures
            final(self).app@ == (AppView { has_save_handler: true, ..old(self).app@ }),
    {
        self.app.register_save_handler(handler);
    }
}

} // verus!
