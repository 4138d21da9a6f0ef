//! Records of the flat arena: a list of named items with a cursor, and the
//! items themselves, each of which may refer to another record by index.

use vstd::prelude::*;

verus! {

/// Mathematical value of an arena item.
pub struct ItemView {
    pub id: Seq<char>,
    pub name: Seq<char>,
    /// Index of the arena record holding this item's nested list, if any.
    pub list_index: Option<nat>,
}

/// Mathematical value of an arena record.
pub struct ListView {
    pub name: Seq<char>,
    pub items: Seq<ItemView>,
    /// Position of the cursor within `items`, if any item is selected.
    pub selected: Option<nat>,
    /// Index of the record this one was opened from.
    pub previous: Option<nat>,
}

/// An optional machine index as an optional natural number.
pub open spec fn index_view(index: Option<usize>) -> Option<nat> {
    match index {
        Some(i) => Some(i as nat),
        None => None,
    }
}

/// The values of a sequence of items, in order.
pub open spec fn items_view(items: Seq<Item>) -> Seq<ItemView> {
    Seq::new(items.len(), |i: int| items[i]@)
}

impl ListView {
    /// The cursor, when present, points at one of the items.
    pub open spec fn wf(self) -> bool {
        self.selected matches Some(s) ==> s < self.items.len()
    }

    /// No two items refer to the same nested list.
    pub open spec fn refs_distinct(self) -> bool {
        forall|k: int, m: int|
            0 <= k < m < self.items.len() ==> ((#[trigger] self.items[k]).list_index is Some
                ==> self.items[k].list_index != (#[trigger] self.items[m]).list_index)
    }

    /// An empty record with no cursor and no parent.
    pub open spec fn empty(name: Seq<char>) -> ListView {
        ListView { name, items: Seq::empty(), selected: None, previous: None }
    }

    /// The item under the cursor.
    pub open spec fn selected_item(self) -> Option<ItemView> {
        match self.selected {
            Some(s) => Some(self.items[s as int]),
            None => None,
        }
    }

    /// The same record with the cursor placed at `index`.
    pub open spec fn select(self, index: Option<nat>) -> ListView {
        ListView { selected: index, ..self }
    }

    /// The same record with the nested-list reference of the item under the
    /// cursor replaced by `list_index`; unchanged when there is no cursor.
    pub open spec fn link_selected(self, list_index: Option<nat>) -> ListView {
        match self.selected {
            Some(s) => ListView {
                items: self.items.update(s as int, ItemView { list_index, ..self.items[s as int] }),
                ..self
            },
            None => self,
        }
    }

    /// The record after `item` is appended.
    pub open spec fn push(self, item: ItemView) -> ListView {
        ListView { items: self.items.push(item), ..self }
    }

    /// The record after the item under the cursor is taken out: the cursor
    /// returns to the first remaining item, or disappears with the last one.
    pub open spec fn remove_selected(self) -> ListView {
        match self.selected {
            Some(s) => ListView {
                items: self.items.remove(s as int),
                selected: if self.items.len() > 1 {
                    Some(0nat)
                } else {
                    None
                },
                ..self
            },
            None => self,
        }
    }

    /// One cyclic step of the cursor towards the end of the list: from the
    /// last item it wraps to the first. With no cursor the first item is
    /// selected; an empty list is left alone.
    pub open spec fn advance(self) -> ListView {
        if self.items.len() == 0 {
            self
        } else {
            match self.selected {
                Some(s) => self.select(Some((((s + 1) as int) % (self.items.len() as int)) as nat)),
                None => self.select(Some(0nat)),
            }
        }
    }

    /// One cyclic step of the cursor towards the start of the list: from the
    /// first item it wraps to the last. With no cursor the first item is
    /// selected; an empty list is left alone.
    pub open spec fn retreat(self) -> ListView {
        if self.items.len() == 0 {
            self
        } else {
            match self.selected {
                Some(s) => self.select(
                    Some((((s + self.items.len() - 1) as int) % (self.items.len() as int)) as nat),
                ),
                None => self.select(Some(0nat)),
            }
        }
    }
}

/// An entry of an arena record.
#[derive(Debug)]
pub struct Item {
    pub id: String,
    pub name: String,
    /// Index of the arena record holding this item's nested list, if any.
    pub list_index: Option<usize>,
}

impl View for Item {
    type V = ItemView;

    open spec fn view(&self) -> ItemView {
        ItemView { id: self.id@, name: self.name@, list_index: index_view(self.list_index) }
    }
}

impl Clone for Item {
    fn clone(&self) -> (copy: Item)
        ensures
            copy == *self,
    {
        Item { id: self.id.clone(), name: self.name.clone(), list_index: self.list_index }
    }
}

impl Item {
    /// An item that owns no nested list.
    pub fn new(id: String, name: String) -> (item: Item)
        ensures
            item@ == (ItemView { id: id@, name: name@, list_index: None }),
    {
        Item { id: id, name: name, list_index: None }
    }
}

/// A record of the arena.
#[derive(Debug)]
pub struct List {
    pub name: String,
    pub items: Vec<Item>,
    /// Position of the cursor within `items`, if any item is selected.
    pub selected: Option<usize>,
    /// Index of the record this one was opened from.
    pub previous: Option<usize>,
}

impl View for List {
    type V = ListView;

    open spec fn view(&self) -> ListView {
        ListView {
            name: self.name@,
            items: items_view(self.items@),
            selected: index_view(self.selected),
            previous: index_view(self.previous),
        }
    }
}

impl Clone for List {
    fn clone(&self) -> (copy: List)
        ensures
            copy@ == self@,
    {
        let mut items: Vec<Item> = Vec::new();
        let mut k: usize = 0;
        while k < self.items.len()
            invariant
                k <= self.items@.len(),
                items@.len() == k,
                forall|m: int| 0 <= m < k ==> items@[m] == self.items@[m],
            decreases self.items@.len() - k,
        {
            items.push(self.items[k].clone());
            k += 1;
        }
        let copy = List {
            name: self.name.clone(),
            items: items,
            selected: self.selected,
            previous: self.previous,
        };
        assert(copy@.items =~= self@.items);
        copy
    }
}

impl List {
    /// An empty record with no cursor and no parent.
    pub fn new(name: String) -> (list: List)
        ensures
            list@ == ListView::empty(name@),
    {
        let list = List { name: name, items: Vec::new(), selected: None, previous: None };
        assert(list@.items =~= Seq::empty());
        list
    }

    /// Whether the cursor, if present, points at one of the items.
    pub fn is_well_formed(&self) -> (ok: bool)
        ensures
            ok == self@.wf(),
    {
        match self.selected {
            Some(selected) => selected < self.items.len(),
            None => true,
        }
    }

    /// The item under the cursor.
    pub fn get_selected_item(&self) -> (item: Option<&Item>)
        requires
            self@.wf(),
        ensures
            item is Some <==> self.selected is Some,
            item matches Some(it) ==> *it == self.items@[self.selected->0 as int],
            self@.selected_item() == (match item {
                Some(it) => Some(it@),
                None => None,
            }),
    {
        match self.selected {
            Some(selected) => {
                return Some(&self.items[selected]);
            },
            None => {
                return None;
            },
        }
    }

    /// The position of the cursor.
    pub fn get_selected_item_index(&self) -> (index: Option<usize>)
        ensures
            index == self.selected,
            index_view(index) == self@.selected,
    {
        return self.selected;
    }

    /// Places the cursor at `index`, or removes it.
    pub fn set_selected_item_index(&mut self, index: Option<usize>)
        requires
            index matches Some(i) ==> i < old(self).items@.len(),
        ensures
            final(self)@ == old(self)@.select(index_view(index)),
            final(self)@.wf(),
            final(self).items == old(self).items,
            final(self).name == old(self).name,
    {
        self.selected = index;
    }

    /// Replaces the nested-list reference of the item under the cursor.
    pub fn set_selected_item_list_index(&mut self, list_index: Option<usize>)
        requires
            old(self)@.wf(),
        ensures
            final(self)@ == old(self)@.link_selected(index_view(list_index)),
            final(self)@.wf(),
    {
        match self.selected {
            Some(selected_item_index) => {
                self.items[selected_item_index].list_index = list_index;
                assert(self@.items =~= old(self)@.link_selected(index_view(list_index)).items);
            },
            None => {},
        }
    }

    /// Takes the item under the cursor out of the record.
    pub fn remove_selected_item(&mut self)
        requires
            old(self)@.wf(),
        ensures
            final(self)@ == old(self)@.remove_selected(),
            final(self)@.wf(),
    {
        match self.selected {
            Some(selected) => {
                self.items.remove(selected);
                if self.items.len() > 0 {
                    self.selected = Some(0);
                } else {
                    self.selected = None;
                }
                assert(self@.items =~= old(self)@.items.remove(selected as int));
            },
            None => {},
        }
    }

    /// Moves the cursor one item towards the start, wrapping to the end.
    pub fn increment_selected(&mut self)
        requires
            old(self)@.wf(),
        ensures
            final(self)@ == old(self)@.retreat(),
            final(self)@.wf(),
    {
        if self.items.len() == 0 {
            return ;
        }
        let s = if let Some(selected) = self.selected {
            if selected > 0 {
                Some(selected - 1)
            } else {
                Some(self.items.len() - 1)
            }
        } else {
            Some(0)
        };
        proof {
            if self.selected is Some {
                lemma_selection_steps(self@);
            }
        }
        self.set_selected_item_index(s);
    }

    /// Moves the cursor one item towards the end, wrapping to the start.
    pub fn decrement_selected(&mut self)
        requires
            old(self)@.wf(),
        ensures
            final(self)@ == old(self)@.advance(),
            final(self)@.wf(),
    {
        if self.items.len() == 0 {
            return ;
        }
        let s = if let Some(selected) = self.selected {
            if selected >= self.items.len() - 1 {
                Some(0)
            } else {
                Some(selected + 1)
            }
        } else {
            Some(0)
        };
        proof {
            if self.selected is Some {
                lemma_selection_steps(self@);
            }
        }
        self.set_selected_item_index(s);
    }
}

/// Stepping past the last item lands on the first, and stepping back from
/// the first lands on the last.
pub proof fn lemma_selection_wraps(list: ListView)
    requires
        list.items.len() > 0,
    ensures
        list.select(Some((list.items.len() - 1) as nat)).advance().selected == Some(0nat),
        list.select(Some(0nat)).retreat().selected == Some((list.items.len() - 1) as nat),
{
    lemma_selection_steps(list.select(Some((list.items.len() - 1) as nat)));
    lemma_selection_steps(list.select(Some(0nat)));
}

/// A step moves the cursor to the neighbouring item, and from either end of
/// the list to the other end.
pub proof fn lemma_selection_steps(list: ListView)
    requires
        list.wf(),
        list.selected is Some,
    ensures
        list.advance().selected == Some(
            if list.selected->0 + 1 == list.items.len() {
                0nat
            } else {
                list.selected->0 + 1
            },
        ),
        list.retreat().selected == Some(
            if list.selected->0 == 0 {
                (list.items.len() - 1) as nat
            } else {
                (list.selected->0 - 1) as nat
            },
        ),
{
    let n = list.items.len() as int;
    let s = list.selected->0 as int;
    assert((s + 1) % n == if s + 1 == n { 0 } else { s + 1 }) by (nonlinear_arith)
        requires
            0 <= s < n,
    ;
    assert((s + n - 1) % n == if s == 0 { n - 1 } else { s - 1 }) by (nonlinear_arith)
        requires
            0 <= s < n,
    ;
}

/// Moving the cursor of an empty list selects nothing.
pub proof fn lemma_empty_list_keeps_no_selection(list: ListView)
    requires
        list.items.len() == 0,
        list.wf(),
    ensures
        list.advance() == list,
        list.retreat() == list,
        list.advance().selected is None,
        list.retreat().selected is None,
{
}

} // verus!
