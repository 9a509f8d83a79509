//! Keyboard input mapped to monitor actions.
//!
//! Key events are described by the library's own `Key` type; the terminal
//! layer converts its events into it.

use vstd::prelude::*;

verus! {

/// Input action resulting from user input.
#[derive(Debug, Clone, PartialEq, Eq, Structural)]
pub enum Action {
    /// Quit the application.
    Quit,
    /// Navigate up.
    Up,
    /// Navigate down.
    Down,
    /// Navigate left.
    Left,
    /// Navigate right.
    Right,
    /// Select/confirm.
    Select,
    /// Toggle help.
    Help,
    /// Switch to preset N (0-9).
    Preset(u8),
    /// Filter processes.
    Filter,
    /// Toggle tree view.
    Tree,
    /// Kill selected process.
    Kill,
    /// Refresh immediately.
    Refresh,
    /// No action.
    NoAction,
}

/// A pressed key.
#[derive(Debug, Clone, Copy, PartialEq, Eq, Structural)]
pub enum Key {
    /// A character key.
    Char(char),
    /// Arrow up.
    Up,
    /// Arrow down.
    Down,
    /// Arrow left.
    Left,
    /// Arrow right.
    Right,
    /// Enter.
    Enter,
    /// Escape.
    Esc,
    /// Function key `F(n)`.
    F(u8),
    /// Any other key.
    Other,
}

/// A key press with the state of the Control modifier.
#[derive(Debug, Clone, Copy, PartialEq, Eq, Structural)]
pub struct KeyPress {
    /// The key.
    pub key: Key,
    /// Control was held.
    pub ctrl: bool,
}

/// The action a key press triggers.
pub open spec fn action_for(vim_keys: bool, press: KeyPress) -> Action {
    match press.key {
        Key::Char(c) => if press.ctrl && (c == 'c' || c == 'q') {
            Action::Quit
        } else if c == 'q' {
            Action::Quit
        } else if vim_keys && c == 'k' {
            Action::Up
        } else if vim_keys && c == 'j' {
            Action::Down
        } else if vim_keys && c == 'h' {
            Action::Left
        } else if vim_keys && c == 'l' {
            Action::Right
        } else if c == '?' {
            Action::Help
        } else if '0' <= c && c <= '9' {
            Action::Preset((c as u32 - 48) as u8)
        } else if c == '/' || c == 'f' {
            Action::Filter
        } else if c == 't' {
            Action::Tree
        } else if c == 'K' {
            Action::Kill
        } else if c == 'r' {
            Action::Refresh
        } else {
            Action::NoAction
        },
        Key::Esc => Action::Quit,
        Key::Up => Action::Up,
        Key::Down => Action::Down,
        Key::Left => Action::Left,
        Key::Right => Action::Right,
        Key::Enter => Action::Select,
        Key::F(n) => if n == 1 {
            Action::Help
        } else if n == 5 {
            Action::Refresh
        } else {
            Action::NoAction
        },
        Key::Other => Action::NoAction,
    }
}

/// Input handler with configurable vim keys.
#[derive(Debug, Clone)]
pub struct InputHandler {
    /// Enable vim-style keys (hjkl).
    pub vim_keys: bool,
}

impl InputHandler {
    /// A handler with vim keys on or off.
    pub fn new(vim_keys: bool) -> (h: Self)
        ensures
            h.vim_keys == vim_keys,
    {
        InputHandler { vim_keys }
    }

    /// The action for a key press.
    pub fn handle_key(&self, press: KeyPress) -> (a: Action)
        ensures
            a == action_for(self.vim_keys, press),
    {
        if press.ctrl {
            match press.key {
                Key::Char(c) => {
                    if c == 'c' || c == 'q' {
                        return Action::Quit;
                    }
                },
                _ => {},
            }
        }
        match press.key {
            Key::Char(c) => {
                if c == 'q' {
                    Action::Quit
                } else if self.vim_keys && c == 'k' {
                    Action::Up
                } else if self.vim_keys && c == 'j' {
                    Action::Down
                } else if self.vim_keys && c == 'h' {
                    Action::Left
                } else if self.vim_keys && c == 'l' {
                    Action::Right
                } else if c == '?' {
                    Action::Help
                } else if '0' <= c && c <= '9' {
                    Action::Preset(((c as u32) - 48) as u8)
                } else if c == '/' || c == 'f' {
                    Action::Filter
                } else if c == 't' {
                    Action::Tree
                } else if c == 'K' {
                    Action::Kill
                } else if c == 'r' {
                    Action::Refresh
                } else {
                    Action::NoAction
                }
            },
            Key::Esc => Action::Quit,
            Key::Up => Action::Up,
            Key::Down => Action::Down,
            Key::Left => Action::Left,
            Key::Right => Action::Right,
            Key::Enter => Action::Select,
            Key::F(n) => {
                if n == 1 {
                    Action::Help
                } else if n == 5 {
                    Action::Refresh
                } else {
                    Action::NoAction
                }
            },
            Key::Other => Action::NoAction,
        }
    }

    /// Mouse events trigger nothing in this keyboard-first interface.
    pub fn handle_mouse(&self) -> (a: Action)
        ensures
            a == Action::NoAction,
    {
        Action::NoAction
    }
}

impl Default for InputHandler {
    /// Vim keys on.
    fn default() -> (h: Self)
        ensures
            h.vim_keys,
    {
        Self::new(true)
    }
}

/// Control-C and Control-Q quit whatever the vim setting, and digit keys select
/// the preset of that number.
pub proof fn lemma_quit_and_presets(vim_keys: bool, c: char)
    ensures
        (c == 'c' || c == 'q') ==> action_for(vim_keys, KeyPress { key: Key::Char(c), ctrl: true })
            == Action::Quit,
        ('0' <= c && c <= '9' && !(c == 'q')) ==> action_for(
            vim_keys,
            KeyPress { key: Key::Char(c), ctrl: false },
        ) == Action::Preset((c as u32 - 48) as u8),
{
}

} // verus!
