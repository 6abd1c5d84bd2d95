use vstd::prelude::*;
use unicode_width::UnicodeWidthStr;

verus! {

/// Which keys the input box listens to.
#[derive(Clone, Copy, Debug, PartialEq, Eq, Structural)]
pub enum Mode {
    Normal,
    Editing,
}

/// A key press, as far as the input box tells keys apart.
#[derive(Clone, Copy, Debug, PartialEq, Eq, Structural)]
pub enum Key {
    Char(char),
    Enter,
    Backspace,
    Esc,
    Other,
}

/// What the event loop does after a key was handled.
#[derive(Clone, Copy, Debug, PartialEq, Eq, Structural)]
pub enum Action {
    Continue,
    Quit,
}

/// The input box: the text being typed, the mode, and what was entered.
pub struct App {
    input: String,
    mode: Mode,
    messages: Vec<String>,
}

/// The state of the input box as contracts see it.
pub struct AppModel {
    pub input: Seq<char>,
    pub mode: Mode,
    pub messages: Seq<Seq<char>>,
}

/// The action that `key` asks for in `state`: `q` in normal mode quits.
pub open spec fn action_on(state: AppModel, key: Key) -> Action {
    if state.mode == Mode::Normal && key == Key::Char('q') {
        Action::Quit
    } else {
        Action::Continue
    }
}

/// The state after `key` was handled in `state`. In normal mode `e` starts
/// editing; while editing a character is appended, backspace removes the
/// last one, enter moves the input to the messages, and escape goes back to
/// normal mode. Every other key changes nothing.
pub open spec fn state_after(state: AppModel, key: Key) -> AppModel {
    match state.mode {
        Mode::Normal => match key {
            Key::Char(c) => if c == 'e' {
                AppModel { mode: Mode::Editing, ..state }
            } else {
                state
            },
            _ => state,
        },
        Mode::Editing => match key {
            Key::Enter => AppModel {
                input: Seq::empty(),
                messages: state.messages.push(state.input),
                ..state
            },
            Key::Char(c) => AppModel { input: state.input.push(c), ..state },
            Key::Backspace => if state.input.len() > 0 {
                AppModel { input: state.input.drop_last(), ..state }
            } else {
                state
            },
            Key::Esc => AppModel { mode: Mode::Normal, ..state },
            Key::Other => state,
        },
    }
}

/// The number of terminal columns that `UnicodeWidthStr::width` counts for
/// a text.
pub uninterp spec fn display_width(text: Seq<char>) -> nat;

/// Calls `UnicodeWidthStr::width` on the text.
#[verifier::external_body]
fn text_width(text: &str) -> (r: usize)
    ensures
        r == display_width(text@),
{
    text.width()
}

/// The column of the cursor in an input box whose frame starts at column
/// `left` and whose text is `width` columns wide: one past the frame and
/// the text, or the last column there can be where that lies beyond it.
pub open spec fn cursor_at(left: u16, width: nat) -> u16 {
    if left + width + 1 <= u16::MAX {
        (left + width + 1) as u16
    } else {
        u16::MAX
    }
}

/// The cursor column for a frame that starts at `left` and a text that is
/// `width` columns wide.
pub fn cursor_column_for(left: u16, width: usize) -> (r: u16)
    ensures
        r == cursor_at(left, width as nat),
{
    let room: u16 = u16::MAX - left;
    if width < room as usize {
        left + (width as u16) + 1
    } else {
        u16::MAX
    }
}

/// Calls `String::push`, which appends the character.
#[verifier::external_body]
fn push_char(s: &mut String, c: char)
    ensures
        final(s)@ == old(s)@.push(c),
{
    s.push(c)
}

/// Calls `String::pop`, which removes the last character and returns it,
/// or returns `None` where the string is empty.
#[verifier::external_body]
fn pop_char(s: &mut String) -> (r: Option<char>)
    ensures
        match r {
            Some(c) => old(s)@.len() > 0 && c == old(s)@.last() && final(s)@ == old(s)@.drop_last(),
            None => old(s)@.len() == 0 && final(s)@ == old(s)@,
        },
{
    s.pop()
}

impl View for App {
    type V = AppModel;

    closed spec fn view(&self) -> AppModel {
        AppModel {
            input: self.input@,
            mode: self.mode,
            messages: self.messages@.map_values(|m: String| m@),
        }
    }
}

impl App {
    pub fn input(&self) -> (r: &str)
        ensures
            r@ == self@.input,
    {
        self.input.as_str()
    }

    pub fn mode(&self) -> (r: Mode)
        ensures
            r == self@.mode,
    {
        self.mode
    }

    pub fn messages(&self) -> (r: &Vec<String>)
        ensures
            r@.map_values(|m: String| m@) == self@.messages,
    {
        &self.messages
    }

    /// The column at which the cursor stands while the input is edited.
    pub fn cursor_column(&self, left: u16) -> (r: u16)
        ensures
            r == cursor_at(left, display_width(self@.input)),
    {
        cursor_column_for(left, text_width(self.input.as_str()))
    }

    /// Handles one key press and says whether the loop goes on.
    pub fn handle_key(&mut self, key: Key) -> (r: Action)
        ensures
            final(self)@ == state_after(old(self)@, key),
            r == action_on(old(self)@, key),
    {
        match self.mode {
            Mode::Normal => match key {
                Key::Char(c) => {
                    if c == 'e' {
                        self.mode = Mode::Editing;
                    } else if c == 'q' {
                        return Action::Quit;
                    }
                },
                _ => {},
            },
            Mode::Editing => match key {
                Key::Enter => {
                    let entered = self.input.clone();
                    self.input = String::new();
                    self.messages.push(entered);
                    proof {
                        assert(final(self)@.messages =~= old(self)@.messages.push(old(self)@.input));
                    }
                },
                Key::Char(c) => {
                    push_char(&mut self.input, c);
                },
                Key::Backspace => {
                    let _ = pop_char(&mut self.input);
                },
                Key::Esc => {
                    self.mode = Mode::Normal;
                },
                Key::Other => {},
            },
        }
        Action::Continue
    }
}

impl Default for App {
    fn default() -> (r: App)
        ensures
            r@.input == Seq::<char>::empty(),
            r@.mode == Mode::Normal,
            r@.messages == Seq::<Seq<char>>::empty(),
    {
        let r = App { input: String::new(), mode: Mode::Normal, messages: Vec::new() };
        proof {
            assert(r@.messages =~= Seq::<Seq<char>>::empty());
        }
        r
    }
}

} // verus!
