//! The interactive session as a state machine: each key press takes the
//! engine from one state to the next and tells the caller whether to go on.

use vstd::prelude::*;
use vstd::string::StringExecFns;
use crate::app::{App, Direction};
use crate::state::{
    keeps_slots, lemma_add_item_wf, lemma_ascend_wf, lemma_delete_selected_wf, lemma_descend_wf,
    lemma_move_selection_wf, lemma_operations_keep_slots, AppView,
};

verus! {

/// `String::push` of the standard library appends the given character to
/// the end of the string.
pub assume_specification[ String::push ](text: &mut String, ch: char)
    ensures
        final(text)@ == old(text)@.push(ch),
;

/// `String::pop` of the standard library removes the last character of the
/// string and returns it; on an empty string it returns nothing and leaves
/// the string empty.
pub assume_specification[ String::pop ](text: &mut String) -> (ch: Option<char>)
    ensures
        old(text)@.len() == 0 ==> ch is None && final(text)@ == old(text)@,
        old(text)@.len() > 0 ==> ch == Some(old(text)@.last()) && final(text)@ == old(
            text,
        )@.drop_last(),
;

/// A key press, as far as the session tells keys apart.
#[derive(Debug, Clone, Copy, PartialEq, Eq)]
pub enum Key {
    Backspace,
    Left,
    Up,
    Down,
    /// A character key; the return key is the line feed.
    Char(char),
    /// A character key pressed together with the control key.
    Ctrl(char),
    /// Any other key.
    Other,
}

/// What the caller of the session does after a key press.
#[derive(Debug, Clone, Copy, PartialEq, Eq)]
pub enum Flow {
    /// Show the new state and wait for the next key.
    Continue,
    /// Leave the session.
    Exit,
}

/// Why a session cannot start.
#[derive(Debug, Clone, Copy, PartialEq, Eq)]
pub enum StartError {
    /// The arena is empty.
    NoRootList,
    /// The root list has no items to show.
    NoItemsInRootList,
}

impl StartError {
    /// The message shown to the user.
    pub fn message(&self) -> (text: String)
        ensures
            text@ == (match *self {
                StartError::NoRootList => "No root list found"@,
                StartError::NoItemsInRootList => "No items in root list"@,
            }),
    {
        match self {
            StartError::NoRootList => String::from_str("No root list found"),
            StartError::NoItemsInRootList => String::from_str("No items in root list"),
        }
    }
}

impl AppView {
    /// Whether a session can start: there must be a root list, and it must
    /// have at least one item.
    pub open spec fn start_check(self) -> Result<(), StartError> {
        if self.lists.len() == 0 {
            Err(StartError::NoRootList)
        } else if self.lists[0].items.len() == 0 {
            Err(StartError::NoItemsInRootList)
        } else {
            Ok(())
        }
    }

    /// The state at the start of a session: running, navigating, with no
    /// text typed.
    pub open spec fn started(self) -> AppView {
        AppView { running: true, adding: false, input: Seq::empty(), ..self }
    }

    /// Whether `key` asks for a save in this state.
    pub open spec fn asks_to_save(self, key: Key) -> bool {
        self.running && !self.adding && key == Key::Char('W')
    }

    /// The state after `key` while text for a new item is being taken.
    ///
    /// Control-c ends the session. Control-s discards the text and returns
    /// to navigation. The return key, when some text has been typed, adds an
    /// item whose id and name are both that text and empties the text; the
    /// session goes on taking text. Any other character is appended to the
    /// text, and backspace removes its last character.
    pub open spec fn typed(self, key: Key) -> AppView {
        match key {
            Key::Ctrl(c) => if c == 'c' {
                AppView { running: false, ..self }
            } else if c == 's' {
                AppView { adding: false, input: Seq::empty(), ..self }
            } else {
                self
            },
            Key::Char(c) => if c == '\n' {
                if self.input.len() > 0 {
                    AppView { input: Seq::empty(), ..self.add_item(self.input, self.input) }
                } else {
                    self
                }
            } else {
                AppView { input: self.input.push(c), ..self }
            },
            Key::Backspace => if self.input.len() > 0 {
                AppView { input: self.input.drop_last(), ..self }
            } else {
                self
            },
            _ => self,
        }
    }

    /// The state after `key` while navigating, where `answer` is what the
    /// save handler answers if it is asked.
    ///
    /// Control-c ends the session. The arrow keys down and up step the
    /// cursor cyclically and the left arrow removes it. `W` saves, `b`
    /// returns to the parent list, `e` opens the nested list of the selected
    /// item, `d` deletes the selected item, and `a` starts taking text for a
    /// new item unless adding is disabled at this depth. Every other key is
    /// ignored.
    pub open spec fn navigated(self, key: Key, answer: Option<Seq<char>>) -> AppView {
        match key {
            Key::Ctrl(c) => if c == 'c' {
                AppView { running: false, ..self }
            } else {
                self
            },
            Key::Left => self.clear_selection(),
            Key::Down => self.advance(),
            Key::Up => self.retreat(),
            Key::Char(c) => if c == 'W' {
                self.saved(answer)
            } else if c == 'b' {
                self.ascend()
            } else if c == 'a' {
                if self.page_options().disable_add {
                    self
                } else {
                    AppView { adding: true, input: Seq::empty(), ..self }
                }
            } else if c == 'e' {
                self.descend()
            } else if c == 'd' {
                self.delete_selected()
            } else {
                self
            },
            _ => self,
        }
    }

    /// The state after `key`, where `answer` is what the save handler
    /// answers if it is asked. A session that is not running ignores every
    /// key.
    pub open spec fn on_key(self, key: Key, answer: Option<Seq<char>>) -> AppView {
        if !self.running {
            self
        } else if self.adding {
            self.typed(key)
        } else {
            self.navigated(key, answer)
        }
    }
}

/// Every key press while taking text keeps the state well formed.
pub proof fn lemma_typed_wf(s: AppView, key: Key)
    requires
        s.wf(),
    ensures
        s.typed(key).wf(),
{
    match key {
        Key::Char(c) => {
            if c == '\n' && s.input.len() > 0 {
                lemma_add_item_wf(s, s.input, s.input);
            }
        },
        _ => {},
    }
}

/// Every key press while navigating keeps the state well formed.
pub proof fn lemma_navigated_wf(s: AppView, key: Key, answer: Option<Seq<char>>)
    requires
        s.wf(),
    ensures
        s.navigated(key, answer).wf(),
{
    match key {
        Key::Left => {
            lemma_move_selection_wf(s);
        },
        Key::Down => {
            lemma_move_selection_wf(s);
        },
        Key::Up => {
            lemma_move_selection_wf(s);
        },
        Key::Char(c) => {
            if c == 'b' {
                lemma_ascend_wf(s);
            } else if c == 'e' {
                lemma_descend_wf(s);
            } else if c == 'd' {
                lemma_delete_selected_wf(s);
            }
        },
        _ => {},
    }
}

/// Every key press keeps the state well formed.
pub proof fn lemma_on_key_wf(s: AppView, key: Key, answer: Option<Seq<char>>)
    requires
        s.wf(),
    ensures
        s.on_key(key, answer).wf(),
{
    if s.running {
        if s.adding {
            lemma_typed_wf(s, key);
        } else {
            lemma_navigated_wf(s, key, answer);
        }
    }
}

/// No key press drops or reuses a slot of the arena.
pub proof fn lemma_on_key_keeps_slots(s: AppView, key: Key, answer: Option<Seq<char>>)
    requires
        s.wf(),
    ensures
        keeps_slots(s.lists, s.on_key(key, answer).lists),
{
    lemma_operations_keep_slots(s, s.input, s.input);
}

impl App {
    /// Starts a session if there is something to show.
    pub fn start(&mut self) -> (outcome: Result<(), StartError>)
        ensures
            outcome == old(self)@.start_check(),
            outcome is Ok ==> final(self)@ == old(self)@.started(),
            outcome is Err ==> final(self)@ == old(self)@,
            old(self)@.wf() ==> final(self)@.wf(),
    {
        if self.lists.len() == 0 {
            return Err(StartError::NoRootList);
        }
        if self.lists[0].items.len() == 0 {
            return Err(StartError::NoItemsInRootList);
        }
        self.running = true;
        self.adding = false;
        self.input = String::new();
        Ok(())
    }

    /// Whether the session is taking text for a new item.
    pub fn is_adding(&self) -> (adding: bool)
        ensures
            adding == self@.adding,
    {
        self.adding
    }

    /// Whether a session is in progress.
    pub fn is_running(&self) -> (running: bool)
        ensures
            running == self@.running,
    {
        self.running
    }

    /// Handles one key press while text for a new item is being taken.
    fn on_key_adding(&mut self, key: Key)
        requires
            old(self)@.wf(),
        ensures
            final(self)@ == old(self)@.typed(key),
            final(self)@.wf(),
    {
        proof {
            lemma_add_item_wf(self@, self@.input, self@.input);
        }
        match key {
            Key::Ctrl(c) => {
                if c == 'c' {
                    self.stop();
                } else if c == 's' {
                    self.adding = false;
                    self.input = String::new();
                }
            },
            Key::Char(c) => {
                if c == '\n' {
                    if !self.input.as_str().is_empty() {
                        let id = self.input.clone();
                        let name = self.input.clone();
                        self.input = String::new();
                        self.add_list_item(id, name);
                    }
                } else {
                    self.input.push(c);
                }
            },
            Key::Backspace => {
                self.input.pop();
            },
            _ => {},
        }
    }

    /// Handles one key press while navigating.
    fn on_key_navigating(&mut self, key: Key)
        requires
            old(self)@.wf(),
        ensures
            exists|answer: Option<Seq<char>>|
                final(self)@ == #[trigger] old(self)@.navigated(key, answer),
            key != Key::Char('W') || !old(self)@.has_save_handler ==> final(self)@ == old(
                self,
            )@.navigated(key, None),
            final(self)@.wf(),
    {
        match key {
            Key::Ctrl(c) => {
                if c == 'c' {
                    self.stop();
                }
            },
            Key::Left => {
                self.clear_selection();
            },
            Key::Down => {
                self.move_selection(Direction::Down);
            },
            Key::Up => {
                self.move_selection(Direction::Up);
            },
            Key::Char(c) => {
                if c == 'W' {
                    self.save();
                    proof {
                        let answer = choose|answer: Option<Seq<char>>|
                            self@ == #[trigger] old(self)@.saved(answer);
                        assert(self@ == old(self)@.navigated(key, answer));
                    }
                } else {
                    if c == 'b' {
                        self.close_current_list();
                    } else if c == 'a' {
                        if !self.get_current_page_options().disable_add {
                            self.adding = true;
                            self.input = String::new();
                        }
                    } else if c == 'e' {
                        self.open_selected_item_list();
                    } else if c == 'd' {
                        self.delete_selected_item();
                    }
                }
            },
            _ => {},
        }
    }

    /// Handles one key press and says whether the session goes on.
    ///
    /// The new state is the one the key leads to, given whatever the save
    /// handler answered if the key asked for a save.
    pub fn on_key(&mut self, key: Key) -> (flow: Flow)
        requires
            old(self)@.wf(),
        ensures
            exists|answer: Option<Seq<char>>|
                final(self)@ == #[trigger] old(self)@.on_key(key, answer),
            !old(self)@.asks_to_save(key) || !old(self)@.has_save_handler ==> final(self)@ == old(
                self,
            )@.on_key(key, None),
            final(self)@.wf(),
            flow == (if final(self)@.running {
                Flow::Continue
            } else {
                Flow::Exit
            }),
    {
        if !self.running {
            return Flow::Exit;
        }
        if self.adding {
            self.on_key_adding(key);
        } else {
            self.on_key_navigating(key);
            proof {
                let answer = choose|answer: Option<Seq<char>>|
                    self@ == #[trigger] old(self)@.navigated(key, answer);
                assert(self@ == old(self)@.on_key(key, answer));
            }
        }
        if self.running {
            Flow::Continue
        } else {
            Flow::Exit
        }
    }
}

} // verus!
