//! The navigation engine: an arena of lists, the list on show, the nesting
//! depth, and the operations that walk and edit the hierarchy.

use vstd::prelude::*;
use crate::layout::{lemma_rebuild_floor, rebuild_list};
use crate::list::{Item, ItemView, List, ListView};
use crate::options::{Options, PageOptions};
use crate::state::{
    arena_wf, depth_of, lemma_add_item_wf, lemma_ascend_wf, lemma_delete_selected_wf,
    lemma_depth_bounded, lemma_depth_frame, lemma_descend_wf, lemma_ensure_selected_sublist_wf,
    lemma_move_selection_wf, lemma_push_keeps_arena, lemma_remove_keeps_arena,
    lemma_unlink_keeps_arena, lemma_update_keeps_depth, AppView,
};
use crate::{items_to_user, List as UserList, SaveHandler};

verus! {

/// The values of a sequence of arena records, in order.
pub open spec fn lists_view(lists: Seq<List>) -> Seq<ListView> {
    Seq::new(lists.len(), |i: int| lists[i]@)
}

/// The characters of an optional text.
pub open spec fn text_view(text: Option<String>) -> Option<Seq<char>> {
    match text {
        Some(t) => Some(t@),
        None => None,
    }
}

/// The navigation engine.
pub struct App {
    /// The arena: every list of the hierarchy, addressed by its index.
    pub lists: Vec<List>,
    /// Index of the list on show.
    pub current: usize,
    /// Configuration, one entry per depth.
    pub options: Options,
    /// Nesting level of the list on show.
    pub depth: usize,
    /// Receives the hierarchy on save.
    pub on_save: Option<Box<dyn SaveHandler>>,
    /// Whether a session is in progress.
    pub running: bool,
    /// The transient notice left by the last save.
    pub notification: Option<String>,
    /// Whether the session is taking text for a new item.
    pub adding: bool,
    /// The text typed so far for a new item.
    pub input: String,
}

impl View for App {
    type V = AppView;

    open spec fn view(&self) -> AppView {
        AppView {
            lists: lists_view(self.lists@),
            current: self.current as nat,
            depth: self.depth as nat,
            options: self.options@,
            running: self.running,
            notification: text_view(self.notification),
            has_save_handler: self.on_save is Some,
            adding: self.adding,
            input: self.input@,
        }
    }
}

impl App {
    /// An engine whose arena holds `root_list` alone, on show at depth zero,
    /// with no configuration, no save handler and no session in progress.
    pub fn new(root_list: List) -> (app: App)
        requires
            root_list@.wf(),
            root_list@.previous is None,
            forall|k: int|
                0 <= k < root_list@.items.len() ==> (
                #[trigger] root_list@.items[k]).list_index is None,
        ensures
            app@.wf(),
            app@ == (AppView {
                lists: seq![root_list@],
                current: 0,
                depth: 0,
                options: Seq::empty(),
                running: false,
                notification: None,
                has_save_handler: false,
                adding: false,
                input: Seq::empty(),
            }),
    {
        let app = App {
            lists: vec![root_list],
            current: 0,
            options: Options::new(),
            depth: 0,
            on_save: None,
            running: false,
            notification: None,
            adding: false,
            input: String::new(),
        };
        assert(app@.lists =~= seq![root_list@]);
        app
    }

    /// Ends the session.
    pub fn stop(&mut self)
        ensures
            final(self)@ == (AppView { running: false, ..old(self)@ }),
    {
        self.running = false;
    }

    /// Appends an empty, parentless list to the arena and returns its index.
    pub fn add_list(&mut self, name: String) -> (index: usize)
        requires
            old(self)@.wf(),
        ensures
            final(self)@ == old(self)@.allocate(name@),
            final(self)@.wf(),
            index == old(self)@.lists.len(),
            final(self).lists@.subrange(0, index as int) == old(self).lists@,
    {
        let list = List::new(name);
        self.lists.push(list);
        proof {
            assert(self@.lists =~= old(self)@.lists.push(ListView::empty(name@)));
            lemma_push_keeps_arena(old(self)@.lists, ListView::empty(name@));
            lemma_depth_frame(old(self)@.lists, self@.lists, self@.current);
        }
        return self.lists.len() - 1;
    }

    /// Appends an empty list whose parent is list `parent` and returns its
    /// index.
    pub fn add_list_below(&mut self, name: String, parent: usize) -> (index: usize)
        requires
            old(self)@.wf(),
            parent < old(self)@.lists.len(),
        ensures
            final(self)@ == old(self)@.allocate_below(name@, parent as nat),
            final(self)@.wf(),
            index == old(self)@.lists.len(),
    {
        let index = self.add_list(name);
        let ghost grown = self@.lists;
        self.lists[index].previous = Some(parent);
        proof {
            let fresh = ListView { previous: Some(parent as nat), ..ListView::empty(name@) };
            assert(self@.lists[index as int].items == grown[index as int].items);
            assert(self@.lists =~= old(self)@.lists.push(fresh));
            lemma_push_keeps_arena(old(self)@.lists, fresh);
            lemma_depth_frame(old(self)@.lists, self@.lists, self@.current);
        }
        index
    }

    /// The configuration in force at the present depth.
    pub fn get_current_page_options(&self) -> (options: PageOptions)
        ensures
            options@ == self@.page_options(),
    {
        self.options.at_depth(self.depth)
    }

    /// The list on show.
    pub fn get_current_list(&self) -> (list: &List)
        requires
            self@.wf(),
        ensures
            *list == self.lists@[self.current as int],
            list@ == self@.current_list(),
    {
        &self.lists[self.current]
    }

    /// The item under the cursor of the list on show.
    pub fn get_selected_item(&self) -> (item: Option<&Item>)
        requires
            self@.wf(),
        ensures
            self@.selected_item() == (match item {
                Some(it) => Some(it@),
                None => None,
            }),
            item matches Some(it) ==> *it == self.lists@[self.current as int].items@[
                self.lists@[self.current as int].selected->0 as int
            ],
    {
        self.lists[self.current].get_selected_item()
    }

    /// The nested list of the item under the cursor.
    pub fn get_list_for_selected_item(&self) -> (list: Option<&List>)
        requires
            self@.wf(),
        ensures
            list is Some <==> self@.selected_list_index() is Some,
            list matches Some(l) ==> *l == self.lists@[self@.selected_list_index()->0 as int]
                && l@ == self@.lists[self@.selected_list_index()->0 as int],
    {
        match self.lists[self.current].get_selected_item() {
            Some(selected) => {
                match selected.list_index {
                    Some(selected_item_list_index) => {
                        return Some(&self.lists[selected_item_list_index]);
                    },
                    None => {
                        return None;
                    },
                }
            },
            None => {
                return None;
            },
        }
    }

    /// Whether the list on show has a parent to return to.
    pub fn can_go_back(&self) -> (back: bool)
        requires
            self@.wf(),
        ensures
            back == self@.current_list().previous is Some,
    {
        match self.lists[self.current].previous {
            Some(_) => true,
            None => false,
        }
    }
}

/// A direction in which the cursor can step.
#[derive(Debug, Clone, Copy, PartialEq, Eq)]
pub enum Direction {
    /// Towards the start of the list.
    Up,
    /// Towards the end of the list.
    Down,
}

impl App {
    /// Steps the cursor of the list on show cyclically in `direction`.
    pub fn move_selection(&mut self, direction: Direction)
        requires
            old(self)@.wf(),
        ensures
            final(self)@ == (match direction {
                Direction::Up => old(self)@.retreat(),
                Direction::Down => old(self)@.advance(),
            }),
            final(self)@.wf(),
    {
        proof {
            lemma_move_selection_wf(self@);
        }
        match direction {
            Direction::Up => {
                self.lists[self.current].increment_selected();
                assert(self@.lists =~= old(self)@.retreat().lists);
            },
            Direction::Down => {
                self.lists[self.current].decrement_selected();
                assert(self@.lists =~= old(self)@.advance().lists);
            },
        }
    }

    /// Removes the cursor of the list on show.
    pub fn clear_selection(&mut self)
        requires
            old(self)@.wf(),
        ensures
            final(self)@ == old(self)@.clear_selection(),
            final(self)@.wf(),
    {
        proof {
            lemma_move_selection_wf(self@);
        }
        self.lists[self.current].set_selected_item_index(None);
        assert(self@.lists =~= old(self)@.clear_selection().lists);
    }

    /// Adds an item below the item under the cursor, creating that item's
    /// nested list on demand.
    pub fn add_list_item(&mut self, name: String, id: String)
        requires
            old(self)@.wf(),
        ensures
            final(self)@ == old(self)@.add_item(name@, id@),
            final(self)@.wf(),
    {
        if self.get_current_page_options().disable_add {
            return ;
        }
        proof {
            lemma_ensure_selected_sublist_wf(self@);
            lemma_add_item_wf(self@, name@, id@);
        }
        match self.lists[self.current].get_selected_item() {
            Some(selected_item) => {
                match selected_item.list_index {
                    Some(_) => {},
                    None => {
                        let index = self.add_list_below(selected_item.name.clone(), self.current);
                        self.lists[self.current].set_selected_item_list_index(Some(index));
                    },
                }
                let item = Item::new(id, name);
                match self.lists[self.current].get_selected_item() {
                    Some(selected_item) => {
                        match selected_item.list_index {
                            Some(list_index) => {
                                let ghost target = self@.lists[list_index as int];
                                self.lists[list_index].items.push(item);
                                assert(self@.lists[list_index as int].items =~= target.push(
                                    ItemView { id: id@, name: name@, list_index: None },
                                ).items);
                                assert(self@.lists =~= old(self)@.add_item(name@, id@).lists);
                            },
                            None => {},
                        }
                    },
                    None => {},
                }
            },
            None => {},
        }
    }

    /// Returns to the parent of the list on show.
    pub fn close_current_list(&mut self)
        requires
            old(self)@.wf(),
        ensures
            final(self)@ == old(self)@.ascend(),
            final(self)@.wf(),
    {
        proof {
            lemma_ascend_wf(self@);
            lemma_depth_bounded(self@.lists, self@.current);
        }
        match self.lists[self.current].previous {
            Some(previous_index) => {
                self.notification = None;
                self.current = previous_index;
                self.depth = self.depth - 1;
                // a nested list that was opened but never filled is not kept
                match self.lists[self.current].get_selected_item() {
                    Some(selected_item) => {
                        match selected_item.list_index {
                            Some(index) => {
                                if self.lists[index].items.len() == 0 {
                                    self.lists[self.current].set_selected_item_list_index(None);
                                }
                            },
                            None => {},
                        }
                    },
                    None => {},
                }
                assert(self@.lists =~= old(self)@.ascend().lists);
            },
            None => {},
        }
    }

    /// Opens the nested list of the item under the cursor.
    pub fn open_selected_item_list(&mut self)
        requires
            old(self)@.wf(),
        ensures
            final(self)@ == old(self)@.descend(),
            final(self)@.wf(),
    {
        proof {
            lemma_descend_wf(self@);
        }
        if !self.get_current_page_options().disable_edit {
            match self.lists[self.current].get_selected_item() {
                Some(selected_item) => {
                    match selected_item.list_index {
                        Some(index) => {
                            proof {
                                lemma_depth_bounded(self@.descend().lists, index as nat);
                            }
                            self.notification = None;
                            self.current = index;
                            self.depth = self.depth + 1;
                            if self.lists[index].items.len() > 0 && self.lists[index].selected.is_none() {
                                self.lists[index].set_selected_item_index(Some(0));
                            }
                            assert(self@.lists =~= old(self)@.descend().lists);
                        },
                        None => {},
                    }
                },
                None => {},
            }
        }
    }

    /// Deletes the item under the cursor; a list that becomes empty is
    /// closed.
    pub fn delete_selected_item(&mut self)
        requires
            old(self)@.wf(),
        ensures
            final(self)@ == old(self)@.delete_selected(),
            final(self)@.wf(),
    {
        proof {
            lemma_delete_selected_wf(self@);
        }
        if !self.get_current_page_options().disable_delete {
            match self.lists[self.current].get_selected_item() {
                Some(_) => {
                    proof {
                        lemma_unlink_keeps_arena(self@.lists, self.current as int);
                        lemma_remove_keeps_arena(self@.lists, self.current as int);
                        lemma_update_keeps_depth(
                            self@.lists,
                            self.current as int,
                            self@.current_list().remove_selected(),
                            self@.current,
                        );
                    }
                    self.lists[self.current].set_selected_item_list_index(None);
                    self.lists[self.current].remove_selected_item();
                    assert(self@.lists =~= old(self)@.lists.update(
                        self.current as int,
                        old(self)@.current_list().remove_selected(),
                    )) by {
                        let before = old(self)@.current_list();
                        assert(before.link_selected(None).remove_selected().items
                            =~= before.remove_selected().items);
                    }
                    if self.lists[self.current].items.len() == 0 {
                        self.close_current_list();
                    }
                },
                None => {},
            }
        }
    }
}

impl App {
    /// Registers the handler that receives the hierarchy on save.
    pub fn register_save_handler(&mut self, on_save: Box<dyn SaveHandler>)
        ensures
            final(self)@ == (AppView { has_save_handler: true, ..old(self)@ }),
    {
        self.on_save = Some(on_save);
    }

    /// Shows `notice`, or clears the notice on show.
    pub fn notify(&mut self, notice: Option<String>)
        ensures
            final(self)@ == old(self)@.with_notice(text_view(notice)),
    {
        self.notification = notice;
    }

    /// The hierarchy as the caller sees it: the first list of the arena and
    /// everything reachable from it. Lists that nothing refers to any more
    /// do not appear.
    pub fn tree(&self) -> (root: UserList)
        requires
            self@.wf(),
        ensures
            root@ == rebuild_list(self@.lists, 0),
    {
        let root = &self.lists[0];
        proof {
            assert forall|k: int| 0 <= k < root.items@.len() implies ((
            #[trigger] root.items@[k]).list_index matches Some(j) ==> j < self.lists@.len()) by {
                assert(self@.lists[0].items[k] == root.items@[k]@);
            }
            lemma_rebuild_floor(self@.lists, 0, 0);
        }
        let items = items_to_user(&self.lists, &root.items);
        UserList::new(root.name.clone(), items)
    }

    /// Hands the hierarchy to the save handler and shows its answer.
    ///
    /// Nothing happens when saving is disabled at the present depth. With
    /// no handler registered the notice is cleared. Only the notice changes.
    pub fn save(&mut self)
        requires
            old(self)@.wf(),
        ensures
            exists|answer: Option<Seq<char>>| final(self)@ == #[trigger] old(self)@.saved(answer),
            !old(self)@.has_save_handler ==> final(self)@ == old(self)@.saved(None),
            final(self)@.wf(),
    {
        if self.get_current_page_options().disable_save {
            return ;
        }
        let answer = match &self.on_save {
            Some(handler) => handler.saved(self.tree()),
            None => None,
        };
        let ghost shown = text_view(answer);
        self.notify(answer);
        assert(self@ == old(self)@.saved(shown));
    }
}

impl App {
    /// Whether no item of list `i` behind position `k` refers to list `j`.
    fn is_only_reference(&self, i: usize, k: usize, j: usize) -> (ok: bool)
        requires
            i < self.lists@.len(),
            k < self.lists@[i as int].items@.len(),
        ensures
            ok == (forall|m: int|
                k < m < self@.lists[i as int].items.len() ==> (
                #[trigger] self@.lists[i as int].items[m]).list_index != Some(j as nat)),
    {
        let list = &self.lists[i];
        assert(k < list.items.len());
        let mut m: usize = k + 1;
        while m < list.items.len()
            invariant
                i < self.lists@.len(),
                *list == self.lists@[i as int],
                k < m <= list.items@.len(),
                forall|n: int|
                    k < n < m ==> (#[trigger] self@.lists[i as int].items[n]).list_index != Some(
                        j as nat,
                    ),
            decreases list.items@.len() - m,
        {
            assert(self@.lists[i as int].items[m as int] == list.items@[m as int]@);
            if let Some(other) = list.items[m].list_index {
                if other == j {
                    return false;
                }
            }
            m += 1;
        }
        true
    }

    /// Whether list `i` keeps the rules of the arena: its cursor points at
    /// one of its items, its parent index is smaller than `i`, and each of
    /// its references names a later list whose parent is `i` and which no
    /// other of its items refers to.
    fn list_is_well_formed(&self, i: usize) -> (ok: bool)
        requires
            i < self.lists@.len(),
        ensures
            ok == ({
                &&& self@.lists[i as int].wf()
                &&& self@.lists[i as int].refs_distinct()
                &&& self@.lists[i as int].previous matches Some(p) ==> p < i
                &&& forall|k: int|
                    0 <= k < self@.lists[i as int].items.len() ==> ((
                    #[trigger] self@.lists[i as int].items[k]).list_index matches Some(j) ==> i < j
                        < self@.lists.len() && self@.lists[j as int].previous == Some(i as nat))
            }),
    {
        let list = &self.lists[i];
        if let Some(selected) = list.selected {
            if selected >= list.items.len() {
                return false;
            }
        }
        if let Some(previous) = list.previous {
            if previous >= i {
                return false;
            }
        }
        let mut k: usize = 0;
        while k < list.items.len()
            invariant
                i < self.lists@.len(),
                *list == self.lists@[i as int],
                k <= list.items@.len(),
                forall|m: int|
                    0 <= m < k ==> ((#[trigger] self@.lists[i as int].items[m]).list_index matches Some(
                        j,
                    ) ==> i < j < self@.lists.len() && self@.lists[j as int].previous == Some(
                        i as nat,
                    )),
                forall|n: int, m: int|
                    0 <= n < k && n < m < self@.lists[i as int].items.len() ==> ((
                    #[trigger] self@.lists[i as int].items[n]).list_index is Some
                        ==> self@.lists[i as int].items[n].list_index != (
                    #[trigger] self@.lists[i as int].items[m]).list_index),
            decreases list.items@.len() - k,
        {
            assert(self@.lists[i as int].items[k as int] == list.items@[k as int]@);
            if let Some(j) = list.items[k].list_index {
                if j <= i || j >= self.lists.len() {
                    return false;
                }
                match self.lists[j].previous {
                    Some(p) => {
                        if p != i {
                            return false;
                        }
                    },
                    None => {
                        return false;
                    },
                }
                if !self.is_only_reference(i, k, j) {
                    return false;
                }
            }
            k += 1;
        }
        true
    }

    /// Whether the state keeps the rules that every operation relies on.
    pub fn is_well_formed(&self) -> (ok: bool)
        ensures
            ok == self@.wf(),
    {
        if self.current >= self.lists.len() {
            return false;
        }
        let mut i: usize = 0;
        while i < self.lists.len()
            invariant
                i <= self.lists@.len(),
                forall|r: int|
                    0 <= r < i ==> {
                        &&& (#[trigger] self@.lists[r]).wf()
                        &&& self@.lists[r].refs_distinct()
                        &&& self@.lists[r].previous matches Some(p) ==> p < r
                    },
                forall|r: int, k: int|
                    0 <= r < i && 0 <= k < self@.lists[r].items.len() ==> ((
                    #[trigger] self@.lists[r].items[k]).list_index matches Some(j) ==> r < j
                        < self@.lists.len() && self@.lists[j as int].previous == Some(r as nat)),
            decreases self.lists@.len() - i,
        {
            if !self.list_is_well_formed(i) {
                return false;
            }
            i += 1;
        }
        let mut at: usize = self.current;
        let mut links: usize = 0;
        while self.lists[at].previous.is_some()
            invariant
                arena_wf(self@.lists),
                at < self.lists@.len(),
                links + at <= self.current,
                depth_of(self@.lists, self@.current) == links + depth_of(self@.lists, at as nat),
            decreases at,
        {
            at = self.lists[at].previous.unwrap();
            links += 1;
        }
        links == self.depth
    }
}

} // verus!
