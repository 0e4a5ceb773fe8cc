//! The state of the interactive front end: a navigation bar the user edits,
//! the locator of the page shown, and its content. Keys go in; commands for
//! the caller to carry out come out.
use vstd::prelude::*;
use crate::client::GeminiClient;

verus! {

/// Relies on `String::push`: the character is appended at the end.
#[verifier::external_body]
fn push_char(s: &mut String, c: char)
    ensures
        final(s)@ == old(s)@.push(c),
{
    s.push(c)
}

/// Relies on `String::pop`: the last character is removed and returned, and
/// an empty string gives `None` and stays empty.
#[verifier::external_body]
fn pop_char(s: &mut String) -> (r: Option<char>)
    ensures
        old(s)@.len() == 0 ==> r is None && final(s)@ == old(s)@,
        old(s)@.len() > 0 ==> r == Some(old(s)@.last()) && final(s)@ == old(s)@.drop_last(),
{
    s.pop()
}

#[derive(Clone, Copy, Debug, PartialEq, Eq, Structural)]
pub enum InputMode {
    /// Keys are commands.
    Normal,
    /// Keys edit the navigation bar.
    NavEdit,
}

/// A key the user pressed.
#[derive(Clone, Copy, Debug, PartialEq, Eq, Structural)]
pub enum Key {
    Char(char),
    Enter,
    Esc,
    Backspace,
    Other,
}

/// What the caller is to do after a key.
pub enum Command {
    Nothing,
    Quit,
    /// Visit this locator and hand the page to `show_page`.
    Visit(String),
}

pub ghost enum CommandView {
    Nothing,
    Quit,
    Visit(Seq<char>),
}

impl View for Command {
    type V = CommandView;

    open spec fn view(&self) -> CommandView {
        match self {
            Command::Nothing => CommandView::Nothing,
            Command::Quit => CommandView::Quit,
            Command::Visit(s) => CommandView::Visit(s@),
        }
    }
}

pub ghost struct InterfaceView {
    pub mode: InputMode,
    pub navbar: Seq<char>,
    pub curr_site: Seq<char>,
    pub content: Seq<char>,
}

/// The effect of a key on the front end, and the command it gives.
pub open spec fn after_key(v: InterfaceView, key: Key) -> (InterfaceView, CommandView) {
    match v.mode {
        InputMode::Normal => match key {
            Key::Char('v') => (InterfaceView { mode: InputMode::NavEdit, ..v }, CommandView::Nothing),
            Key::Char('q') => (v, CommandView::Quit),
            _ => (v, CommandView::Nothing),
        },
        InputMode::NavEdit => match key {
            Key::Enter => (
                InterfaceView { mode: InputMode::Normal, curr_site: v.navbar, ..v },
                CommandView::Visit(v.navbar),
            ),
            Key::Esc => (InterfaceView { mode: InputMode::Normal, ..v }, CommandView::Nothing),
            Key::Backspace => (
                InterfaceView {
                    navbar: if v.navbar.len() > 0 {
                        v.navbar.drop_last()
                    } else {
                        v.navbar
                    },
                    ..v
                },
                CommandView::Nothing,
            ),
            Key::Char(c) => (InterfaceView { navbar: v.navbar.push(c), ..v }, CommandView::Nothing),
            _ => (v, CommandView::Nothing),
        },
    }
}

/// The front end's state, with the client its visits go through.
pub struct Interface {
    client: GeminiClient,
    inputmode: InputMode,
    navbar: String,
    curr_site: String,
    content: String,
}

impl View for Interface {
    type V = InterfaceView;

    closed spec fn view(&self) -> InterfaceView {
        InterfaceView {
            mode: self.inputmode,
            navbar: self.navbar@,
            curr_site: self.curr_site@,
            content: self.content@,
        }
    }
}

impl Interface {
    /// The client this front end's visits go through.
    pub closed spec fn held_client(&self) -> GeminiClient {
        self.client
    }

    /// A front end in command mode, with nothing typed and nothing shown.
    pub fn new(client: GeminiClient) -> (r: Self)
        ensures
            r@ == (InterfaceView {
                mode: InputMode::Normal,
                navbar: Seq::empty(),
                curr_site: Seq::empty(),
                content: Seq::empty(),
            }),
            r.held_client() == client,
    {
        Interface {
            inputmode: InputMode::Normal,
            navbar: String::new(),
            curr_site: String::new(),
            content: String::new(),
            client,
        }
    }

    /// Applies a key and says what the caller is to do.
    pub fn handle_key(&mut self, key: Key) -> (c: Command)
        ensures
            (final(self)@, c@) == after_key(old(self)@, key),
            final(self).held_client() == old(self).held_client(),
    {
        match self.inputmode {
            InputMode::Normal => match key {
                Key::Char('v') => {
                    self.inputmode = InputMode::NavEdit;
                    Command::Nothing
                },
                Key::Char('q') => Command::Quit,
                _ => Command::Nothing,
            },
            InputMode::NavEdit => match key {
                Key::Enter => {
                    self.curr_site = self.navbar.clone();
                    self.inputmode = InputMode::Normal;
                    Command::Visit(self.navbar.clone())
                },
                Key::Esc => {
                    self.inputmode = InputMode::Normal;
                    Command::Nothing
                },
                Key::Backspace => {
                    let _ = pop_char(&mut self.navbar);
                    Command::Nothing
                },
                Key::Char(c) => {
                    push_char(&mut self.navbar, c);
                    Command::Nothing
                },
                _ => Command::Nothing,
            },
        }
    }

    /// Shows the outcome of a visit as the page content.
    pub fn show_page(&mut self, content: String)
        ensures
            final(self)@ == (InterfaceView { content: content@, ..old(self)@ }),
            final(self).held_client() == old(self).held_client(),
    {
        self.content = content;
    }

    pub fn client(&self) -> (r: &GeminiClient)
        ensures
            *r == self.held_client(),
    {
        &self.client
    }

    pub fn is_editing(&self) -> (r: bool)
        ensures
            r == (self@.mode == InputMode::NavEdit),
    {
        match self.inputmode {
            InputMode::NavEdit => true,
            InputMode::Normal => false,
        }
    }

    pub fn navbar(&self) -> (r: &str)
        ensures
            r@ == self@.navbar,
    {
        self.navbar.as_str()
    }

    pub fn curr_site(&self) -> (r: &str)
        ensures
            r@ == self@.curr_site,
    {
        self.curr_site.as_str()
    }

    pub fn content(&self) -> (r: &str)
        ensures
            r@ == self@.content,
    {
        self.content.as_str()
    }
}

} // verus!
