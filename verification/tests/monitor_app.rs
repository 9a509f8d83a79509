use trueno_viz::monitor::app::App;
use trueno_viz::monitor::config::Config;
use trueno_viz::monitor::input::{Action, Key, KeyPress};

#[test]
fn test_app_new() {
    let app = App::new(Config::default());
    assert!(!app.should_quit());
}

#[test]
fn test_app_handle_quit() {
    let mut app = App::new(Config::default());
    app.handle_action(Action::Quit);
    assert!(app.should_quit());
}

#[test]
fn test_app_handle_help() {
    let mut app = App::new(Config::default());
    assert!(!app.show_help());

    app.handle_action(Action::Help);
    assert!(app.show_help());

    app.handle_action(Action::Help);
    assert!(!app.show_help());
}

#[test]
fn test_app_default() {
    let app = App::default();
    assert!(!app.should_quit());
}

#[test]
fn keys_drive_the_application() {
    let mut app = App::new(Config::default());
    app.handle_key(KeyPress { key: Key::Char('?'), ctrl: false });
    assert!(app.show_help());
    app.handle_key(KeyPress { key: Key::Char('3'), ctrl: false });
    assert_eq!(app.layout().current_index(), 0);
    assert!(!app.should_quit());
    app.handle_key(KeyPress { key: Key::Char('c'), ctrl: true });
    assert!(app.should_quit());
    app.handle_action(Action::Refresh);
    assert!(app.should_quit());
    assert!(app.show_help());
}

#[test]
fn vim_keys_follow_the_configuration() {
    let mut config = Config::default();
    config.global.vim_keys = false;
    let mut app = App::new(config);
    app.handle_key(KeyPress { key: Key::Char('k'), ctrl: false });
    assert!(!app.should_quit());
    assert!(!app.config().global.vim_keys);
}
