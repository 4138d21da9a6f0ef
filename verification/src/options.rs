//! Per-depth configuration: which operations a page allows and how it is
//! labelled.

use vstd::prelude::*;
use vstd::string::StringExecFns;

verus! {

/// Mathematical value of the configuration of one nesting depth.
pub struct PageOptionsView {
    pub title: Seq<char>,
    pub menu_box_title: Seq<char>,
    pub selected_box_title: Seq<char>,
    pub list_box_title: Seq<char>,
    pub save_command_description: Seq<char>,
    pub disable_delete: bool,
    pub disable_add: bool,
    pub disable_edit: bool,
    pub disable_save: bool,
}

/// The configuration with the given title, the stock labels and every
/// operation enabled.
pub open spec fn default_page_options(title: Seq<char>) -> PageOptionsView {
    PageOptionsView {
        title,
        menu_box_title: "Menu"@,
        selected_box_title: "Selected"@,
        list_box_title: "List"@,
        save_command_description: "save"@,
        disable_delete: false,
        disable_add: false,
        disable_edit: false,
        disable_save: false,
    }
}

/// The text of one decimal digit.
pub open spec fn digit_text(d: nat) -> Seq<char> {
    if d == 0 {
        "0"@
    } else if d == 1 {
        "1"@
    } else if d == 2 {
        "2"@
    } else if d == 3 {
        "3"@
    } else if d == 4 {
        "4"@
    } else if d == 5 {
        "5"@
    } else if d == 6 {
        "6"@
    } else if d == 7 {
        "7"@
    } else if d == 8 {
        "8"@
    } else {
        "9"@
    }
}

/// The decimal text of a natural number, most significant digit first,
/// without leading zeros.
pub open spec fn decimal_text(n: nat) -> Seq<char>
    decreases n,
{
    if n < 10 {
        digit_text(n)
    } else {
        decimal_text(n / 10) + digit_text(n % 10)
    }
}

/// The values of a sequence of page configurations, in order.
pub open spec fn page_options_view(page_options: Seq<PageOptions>) -> Seq<PageOptionsView> {
    Seq::new(page_options.len(), |i: int| page_options[i]@)
}

/// The configuration in force at `depth`: the configured entry when there is
/// one, otherwise the default entitled with the depth in decimal.
pub open spec fn page_options_at(page_options: Seq<PageOptionsView>, depth: nat) -> PageOptionsView {
    if depth < page_options.len() {
        page_options[depth as int]
    } else {
        default_page_options(decimal_text(depth))
    }
}

/// The configuration of one nesting depth.
#[derive(Debug)]
pub struct PageOptions {
    pub title: String,
    pub menu_box_title: String,
    pub selected_box_title: String,
    pub list_box_title: String,
    pub save_command_description: String,
    pub disable_delete: bool,
    pub disable_add: bool,
    pub disable_edit: bool,
    pub disable_save: bool,
}

impl View for PageOptions {
    type V = PageOptionsView;

    open spec fn view(&self) -> PageOptionsView {
        PageOptionsView {
            title: self.title@,
            menu_box_title: self.menu_box_title@,
            selected_box_title: self.selected_box_title@,
            list_box_title: self.list_box_title@,
            save_command_description: self.save_command_description@,
            disable_delete: self.disable_delete,
            disable_add: self.disable_add,
            disable_edit: self.disable_edit,
            disable_save: self.disable_save,
        }
    }
}

impl Clone for PageOptions {
    fn clone(&self) -> (copy: PageOptions)
        ensures
            copy == *self,
    {
        PageOptions {
            title: self.title.clone(),
            menu_box_title: self.menu_box_title.clone(),
            selected_box_title: self.selected_box_title.clone(),
            list_box_title: self.list_box_title.clone(),
            save_command_description: self.save_command_description.clone(),
            disable_delete: self.disable_delete,
            disable_add: self.disable_add,
            disable_edit: self.disable_edit,
            disable_save: self.disable_save,
        }
    }
}

impl PageOptions {
    /// The configuration with the given title, the stock labels and every
    /// operation enabled.
    pub fn new(title: String) -> (options: PageOptions)
        ensures
            options@ == default_page_options(title@),
    {
        PageOptions {
            title: title,
            menu_box_title: String::from_str("Menu"),
            selected_box_title: String::from_str("Selected"),
            list_box_title: String::from_str("List"),
            save_command_description: String::from_str("save"),
            disable_delete: false,
            disable_add: false,
            disable_edit: false,
            disable_save: false,
        }
    }

    /// The default configuration of a depth that has none of its own.
    pub fn for_depth(depth: usize) -> (options: PageOptions)
        ensures
            options@ == default_page_options(decimal_text(depth as nat)),
    {
        PageOptions::new(decimal_string(depth))
    }
}

/// The text of one decimal digit.
fn digit_str(d: usize) -> (text: &'static str)
    requires
        d < 10,
    ensures
        text@ == digit_text(d as nat),
{
    if d == 0 {
        "0"
    } else if d == 1 {
        "1"
    } else if d == 2 {
        "2"
    } else if d == 3 {
        "3"
    } else if d == 4 {
        "4"
    } else if d == 5 {
        "5"
    } else if d == 6 {
        "6"
    } else if d == 7 {
        "7"
    } else if d == 8 {
        "8"
    } else {
        "9"
    }
}

/// Writes a number in decimal.
pub fn decimal_string(n: usize) -> (text: String)
    ensures
        text@ == decimal_text(n as nat),
    decreases n,
{
    if n < 10 {
        String::from_str(digit_str(n))
    } else {
        decimal_string(n / 10).concat(digit_str(n % 10))
    }
}

/// The caller's configuration, one entry per nesting depth starting at the
/// root.
pub struct Options {
    pub page_options: Vec<PageOptions>,
}

impl View for Options {
    type V = Seq<PageOptionsView>;

    open spec fn view(&self) -> Seq<PageOptionsView> {
        page_options_view(self.page_options@)
    }
}

impl Options {
    /// No depth is configured.
    pub fn new() -> (options: Options)
        ensures
            options@ == Seq::<PageOptionsView>::empty(),
    {
        Options { page_options: Vec::new() }
    }

    /// The configuration in force at `depth`.
    pub fn at_depth(&self, depth: usize) -> (options: PageOptions)
        ensures
            options@ == page_options_at(self@, depth as nat),
    {
        if self.page_options.len() > depth {
            self.page_options[depth].clone()
        } else {
            PageOptions::for_depth(depth)
        }
    }
}

} // verus!
