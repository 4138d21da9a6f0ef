//! What the screen says about a state: the title line, the usage hints and
//! the place of the text cursor. Drawing them is left to the caller.

use vstd::prelude::*;
use vstd::string::StringExecFns;
use unicode_width::UnicodeWidthStr;
use crate::app::App;
use crate::state::AppView;
use crate::options::PageOptionsView;

verus! {

/// The number of terminal columns that the crate `unicode-width` gives a
/// text.
pub uninterp spec fn display_width(text: Seq<char>) -> nat;

/// `UnicodeWidthStr::width` of the crate `unicode-width`: the displayed
/// width of the text in columns. The result depends on the characters of the
/// text alone.
#[verifier::external_body]
fn text_width(text: &str) -> (width: usize)
    ensures
        width == display_width(text@),
{
    UnicodeWidthStr::width(text)
}

/// The hints shown for a page: leaving is always possible, and each of the
/// other operations is mentioned when the page allows it.
pub open spec fn usage_text(options: PageOptionsView, can_go_back: bool) -> Seq<Seq<char>> {
    seq!["ctrl-c: exit"@] + (if options.disable_save {
        Seq::<Seq<char>>::empty()
    } else {
        seq!["W: "@ + options.save_command_description]
    }) + (if can_go_back {
        seq!["b: back to previous page"@]
    } else {
        Seq::<Seq<char>>::empty()
    }) + (if options.disable_add {
        Seq::<Seq<char>>::empty()
    } else {
        seq!["a: add items to selection"@]
    }) + (if options.disable_edit {
        Seq::<Seq<char>>::empty()
    } else {
        seq!["e: edit selection"@]
    }) + (if options.disable_delete {
        Seq::<Seq<char>>::empty()
    } else {
        seq!["d: delete selection"@]
    })
}

/// The values of a sequence of texts, in order.
pub open spec fn texts_view(texts: Seq<String>) -> Seq<Seq<char>> {
    Seq::new(texts.len(), |i: int| texts[i]@)
}

/// Column and row of the text cursor behind a typed text that is `width`
/// columns wide. The text starts in column four of row four, and the column
/// wraps round at the limit of sixteen bits.
pub open spec fn cursor_at(width: nat) -> (u16, u16) {
    (((4 + width % 0x1_0000) % 0x1_0000) as u16, 4u16)
}

impl AppView {
    /// The title line while navigating: the page title and the name of the
    /// list on show, behind the notice if there is one.
    pub open spec fn title_text(self) -> Seq<char> {
        let heading = self.page_options().title + ": "@ + self.current_list().name;
        match self.notification {
            Some(notice) => notice + " | "@ + heading,
            None => heading,
        }
    }

    /// The title line while text is taken: the name of the selected item,
    /// or of the list on show when nothing is selected.
    pub open spec fn add_menu_title_text(self) -> Seq<char> {
        match self.selected_item() {
            Some(item) => item.name,
            None => self.current_list().name,
        }
    }
}

impl App {
    /// The title line while navigating.
    pub fn title(&self) -> (title: String)
        requires
            self@.wf(),
        ensures
            title@ == self@.title_text(),
    {
        let page_options = self.get_current_page_options();
        let mut heading = page_options.title;
        heading.append(": ");
        heading.append(self.lists[self.current].name.as_str());
        match &self.notification {
            Some(notice) => {
                let mut title = notice.clone();
                title.append(" | ");
                title.append(heading.as_str());
                title
            },
            None => heading,
        }
    }

    /// The title line while text is taken.
    pub fn add_menu_title(&self) -> (title: String)
        requires
            self@.wf(),
        ensures
            title@ == self@.add_menu_title_text(),
    {
        match self.get_selected_item() {
            Some(item) => item.name.clone(),
            None => self.lists[self.current].name.clone(),
        }
    }

    /// The hints shown while navigating.
    pub fn usage(&self) -> (usage: Vec<String>)
        requires
            self@.wf(),
        ensures
            texts_view(usage@) == usage_text(
                self@.page_options(),
                self@.current_list().previous is Some,
            ),
    {
        let page_options = self.get_current_page_options();
        let mut usage: Vec<String> = Vec::new();
        usage.push(String::from_str("ctrl-c: exit"));
        if !page_options.disable_save {
            let mut save_description = String::from_str("W: ");
            save_description.append(page_options.save_command_description.as_str());
            usage.push(save_description);
        }
        if self.can_go_back() {
            usage.push(String::from_str("b: back to previous page"));
        }
        if !page_options.disable_add {
            usage.push(String::from_str("a: add items to selection"));
        }
        if !page_options.disable_edit {
            usage.push(String::from_str("e: edit selection"));
        }
        if !page_options.disable_delete {
            usage.push(String::from_str("d: delete selection"));
        }
        assert(texts_view(usage@) =~= usage_text(
            self@.page_options(),
            self@.current_list().previous is Some,
        ));
        usage
    }

    /// Column and row of the text cursor behind the text typed so far.
    pub fn input_cursor(&self) -> (position: (u16, u16))
        ensures
            position == cursor_at(display_width(self@.input)),
    {
        cursor_for_width(text_width(self.input.as_str()))
    }
}

/// Column and row of the text cursor behind a typed text that is `width`
/// columns wide.
pub fn cursor_for_width(width: usize) -> (position: (u16, u16))
    ensures
        position == cursor_at(width as nat),
{
    let narrowed = (width % 0x1_0000) as u16;
    (4u16.wrapping_add(narrowed), 4)
}

} // verus!
