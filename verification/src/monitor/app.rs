//! The monitor application's state and how it responds to the user.
//!
//! The terminal loop (drawing, polling for key presses, collecting metrics) runs
//! outside; each key press it reads is handed to [`App::handle_key`].

use crate::monitor::config::Config;
use crate::monitor::input::{action_for, Action, InputHandler, KeyPress};
use crate::monitor::layout::{default_shape, preset_shape, LayoutManager};
use vstd::prelude::*;

verus! {

/// The state of the monitor application.
#[derive(Debug)]
pub struct App {
    /// Configuration.
    config: Config,
    /// Input handler.
    input: InputHandler,
    /// Layout manager.
    layout: LayoutManager,
    /// The user asked to quit.
    should_quit: bool,
    /// The help overlay is shown.
    show_help: bool,
}

impl App {
    /// The configuration the application runs with.
    pub closed spec fn settings(self) -> Config {
        self.config
    }

    /// Vim-style keys are on.
    pub closed spec fn vim_keys(self) -> bool {
        self.input.vim_keys
    }

    /// The layouts and the current one.
    pub closed spec fn layouts(self) -> LayoutManager {
        self.layout
    }

    /// The user asked to quit.
    pub closed spec fn quitting(self) -> bool {
        self.should_quit
    }

    /// The help overlay is shown.
    pub closed spec fn helping(self) -> bool {
        self.show_help
    }

    /// The state after `action`: quit sets the quit flag, help toggles the overlay, a
    /// preset number switches the layout (when there is such a preset); every other
    /// action changes nothing.
    pub open spec fn acted(self, next: Self, action: Action) -> bool {
        &&& next.settings() == self.settings()
        &&& next.vim_keys() == self.vim_keys()
        &&& next.quitting() == (self.quitting() || action == Action::Quit)
        &&& next.helping() == (if action == Action::Help {
            !self.helping()
        } else {
            self.helping()
        })
        &&& next.layouts().preset_list() == self.layouts().preset_list()
        &&& next.layouts().position() == (match action {
            Action::Preset(n) => if (n as nat) < self.layouts().preset_list().len() {
                n as nat
            } else {
                self.layouts().position()
            },
            _ => self.layouts().position(),
        })
    }

    /// A running application with the default layout, no help shown, and vim keys as
    /// the configuration says.
    pub fn new(config: Config) -> (app: Self)
        ensures
            app.settings() == config,
            app.vim_keys() == config.global.vim_keys,
            !app.quitting(),
            !app.helping(),
            app.layouts().preset_list().len() == 1,
            preset_shape(app.layouts().preset_list()[0]) == default_shape(),
            app.layouts().position() == 0,
    {
        let input = InputHandler::new(config.global.vim_keys);
        App {
            config,
            input,
            layout: LayoutManager::new(),
            should_quit: false,
            show_help: false,
        }
    }

    /// Applies an action.
    pub fn handle_action(&mut self, action: Action)
        ensures
            old(self).acted(*final(self), action),
    {
        match action {
            Action::Quit => {
                self.should_quit = true;
            },
            Action::Help => {
                self.show_help = !self.show_help;
            },
            Action::Preset(n) => {
                self.layout.switch_to(n as usize);
            },
            _ => {},
        }
    }

    /// Responds to a key press: the action the key triggers is applied.
    pub fn handle_key(&mut self, press: KeyPress)
        ensures
            old(self).acted(*final(self), action_for(old(self).vim_keys(), press)),
    {
        let action = self.input.handle_key(press);
        self.handle_action(action);
    }

    /// The user asked to quit.
    pub fn should_quit(&self) -> (b: bool)
        ensures
            b == self.quitting(),
    {
        self.should_quit
    }

    /// The help overlay is shown.
    pub fn show_help(&self) -> (b: bool)
        ensures
            b == self.helping(),
    {
        self.show_help
    }

    /// The layout manager.
    pub fn layout(&self) -> (l: &LayoutManager)
        ensures
            *l == self.layouts(),
    {
        &self.layout
    }

    /// The configuration.
    pub fn config(&self) -> (c: &Config)
        ensures
            *c == self.settings(),
    {
        &self.config
    }
}

impl Default for App {
    /// A running application with the default configuration.
    fn default() -> (app: Self)
        ensures
            !app.quitting(),
            !app.helping(),
            app.vim_keys(),
            app.layouts().position() == 0,
    {
        App::new(Config::default())
    }
}

/// Quitting is final: once the user has asked to quit, no action takes it back.
pub proof fn lemma_quit_is_final(before: App, after: App, action: Action)
    requires
        before.acted(after, action),
        before.quitting(),
    ensures
        after.quitting(),
{
}

/// Asking for help twice leaves the overlay as it was.
pub proof fn lemma_help_twice(a: App, b: App, c: App)
    requires
        a.acted(b, Action::Help),
        b.acted(c, Action::Help),
    ensures
        c.helping() == a.helping(),
        c.quitting() == a.quitting(),
        c.layouts().position() == a.layouts().position(),
{
}

} // verus!
