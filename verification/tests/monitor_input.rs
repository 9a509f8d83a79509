use crossterm::event::{KeyCode, KeyEvent, KeyModifiers, MouseButton, MouseEvent, MouseEventKind};
use trueno_viz::monitor::input::{Action, InputHandler, Key, KeyPress};

fn key_press(event: KeyEvent) -> KeyPress {
    let key = match event.code {
        KeyCode::Char(c) => Key::Char(c),
        KeyCode::Up => Key::Up,
        KeyCode::Down => Key::Down,
        KeyCode::Left => Key::Left,
        KeyCode::Right => Key::Right,
        KeyCode::Enter => Key::Enter,
        KeyCode::Esc => Key::Esc,
        KeyCode::F(n) => Key::F(n),
        _ => Key::Other,
    };
    KeyPress { key, ctrl: event.modifiers.contains(KeyModifiers::CONTROL) }
}

fn key_event(code: KeyCode) -> KeyPress {
    key_press(KeyEvent::new(code, KeyModifiers::empty()))
}

fn key_event_ctrl(code: KeyCode) -> KeyPress {
    key_press(KeyEvent::new(code, KeyModifiers::CONTROL))
}

#[test]
fn test_quit_actions() {
    let handler = InputHandler::new(true);

    assert_eq!(handler.handle_key(key_event(KeyCode::Char('q'))), Action::Quit);
    assert_eq!(handler.handle_key(key_event(KeyCode::Esc)), Action::Quit);
    assert_eq!(handler.handle_key(key_event_ctrl(KeyCode::Char('c'))), Action::Quit);
}

#[test]
fn test_navigation() {
    let handler = InputHandler::new(true);

    assert_eq!(handler.handle_key(key_event(KeyCode::Up)), Action::Up);
    assert_eq!(handler.handle_key(key_event(KeyCode::Down)), Action::Down);
    assert_eq!(handler.handle_key(key_event(KeyCode::Left)), Action::Left);
    assert_eq!(handler.handle_key(key_event(KeyCode::Right)), Action::Right);
}

#[test]
fn test_vim_keys_enabled() {
    let handler = InputHandler::new(true);

    assert_eq!(handler.handle_key(key_event(KeyCode::Char('k'))), Action::Up);
    assert_eq!(handler.handle_key(key_event(KeyCode::Char('j'))), Action::Down);
    assert_eq!(handler.handle_key(key_event(KeyCode::Char('h'))), Action::Left);
    assert_eq!(handler.handle_key(key_event(KeyCode::Char('l'))), Action::Right);
}

#[test]
fn test_vim_keys_disabled() {
    let handler = InputHandler::new(false);

    assert_eq!(handler.handle_key(key_event(KeyCode::Char('k'))), Action::NoAction);
    assert_eq!(handler.handle_key(key_event(KeyCode::Char('j'))), Action::NoAction);
}

#[test]
fn test_presets() {
    let handler = InputHandler::new(true);

    assert_eq!(handler.handle_key(key_event(KeyCode::Char('0'))), Action::Preset(0));
    assert_eq!(handler.handle_key(key_event(KeyCode::Char('5'))), Action::Preset(5));
    assert_eq!(handler.handle_key(key_event(KeyCode::Char('9'))), Action::Preset(9));
}

#[test]
fn test_help() {
    let handler = InputHandler::new(true);

    assert_eq!(handler.handle_key(key_event(KeyCode::Char('?'))), Action::Help);
    assert_eq!(handler.handle_key(key_event(KeyCode::F(1))), Action::Help);
}

#[test]
fn test_select_action() {
    let handler = InputHandler::new(true);
    assert_eq!(handler.handle_key(key_event(KeyCode::Enter)), Action::Select);
}

#[test]
fn test_filter_action() {
    let handler = InputHandler::new(true);
    assert_eq!(handler.handle_key(key_event(KeyCode::Char('/'))), Action::Filter);
    assert_eq!(handler.handle_key(key_event(KeyCode::Char('f'))), Action::Filter);
}

#[test]
fn test_tree_action() {
    let handler = InputHandler::new(true);
    assert_eq!(handler.handle_key(key_event(KeyCode::Char('t'))), Action::Tree);
}

#[test]
fn test_kill_action() {
    let handler = InputHandler::new(true);
    assert_eq!(handler.handle_key(key_event(KeyCode::Char('K'))), Action::Kill);
}

#[test]
fn test_refresh_action() {
    let handler = InputHandler::new(true);
    assert_eq!(handler.handle_key(key_event(KeyCode::Char('r'))), Action::Refresh);
    assert_eq!(handler.handle_key(key_event(KeyCode::F(5))), Action::Refresh);
}

#[test]
fn test_ctrl_q_quits() {
    let handler = InputHandler::new(true);
    assert_eq!(handler.handle_key(key_event_ctrl(KeyCode::Char('q'))), Action::Quit);
}

#[test]
fn test_ctrl_other_key_no_action() {
    let handler = InputHandler::new(true);
    assert_eq!(handler.handle_key(key_event_ctrl(KeyCode::Char('x'))), Action::NoAction);
}

#[test]
fn test_handle_mouse_returns_none() {
    let handler = InputHandler::new(true);
    let mouse_event = MouseEvent {
        kind: MouseEventKind::Down(MouseButton::Left),
        column: 0,
        row: 0,
        modifiers: KeyModifiers::empty(),
    };
    let _ = mouse_event;
    assert_eq!(handler.handle_mouse(), Action::NoAction);
}

#[test]
fn test_unknown_key_returns_none() {
    let handler = InputHandler::new(true);
    assert_eq!(handler.handle_key(key_event(KeyCode::Tab)), Action::NoAction);
    assert_eq!(handler.handle_key(key_event(KeyCode::Insert)), Action::NoAction);
}

#[test]
fn test_action_clone_and_debug() {
    let action = Action::Quit;
    let cloned = action.clone();
    assert_eq!(action, cloned);

    let debug = format!("{:?}", Action::Preset(5));
    assert!(debug.contains("Preset"));
}

#[test]
fn test_input_handler_debug() {
    let handler = InputHandler::new(false);
    let debug = format!("{:?}", handler);
    assert!(debug.contains("InputHandler"));
}
