use zappaw::client::api::MessageResponse;
use zappaw::client::app::App;
use zappaw::client::events::{
    conclude_submission, handle_key, key_input, load_initial_history, merge_server_messages,
    needs_animation, KeyInput, KeyMods, KeyName, KeyOutcome,
};

fn response(id: &str, user: &str, content: &str, at: &str) -> MessageResponse {
    MessageResponse {
        id: id.to_string(),
        username: user.to_string(),
        content: content.to_string(),
        created_at: at.to_string(),
    }
}

#[test]
fn merge_adds_only_unseen_ids() {
    let mut app = App::new("ann", "", "t");
    let batch = vec![response("1", "bob", "a", "t1"), response("2", "ann", "b", "t2"), response("1", "bob", "a", "t1")];
    assert_eq!(merge_server_messages(&mut app, &batch), 2);
    assert_eq!(app.messages.len(), 2);
    assert!(app.messages[1].is_mine);
    assert_eq!(app.last_seen_ts.as_deref(), Some("t1"));
    assert_eq!(merge_server_messages(&mut app, &batch), 0);
    assert_eq!(app.messages.len(), 2);
}

#[test]
fn merge_of_empty_batch_keeps_cursor() {
    let mut app = App::new("ann", "", "t");
    app.last_seen_ts = Some("x".to_string());
    assert_eq!(merge_server_messages(&mut app, &vec![]), 0);
    assert_eq!(app.last_seen_ts.as_deref(), Some("x"));
}

#[test]
fn initial_history_is_loaded_in_order() {
    let mut app = App::new("ann", "", "t");
    load_initial_history(&mut app, &vec![response("1", "bob", "first", "t1"), response("2", "bob", "second", "t2")]);
    assert_eq!(app.messages[0].text, "first");
    assert_eq!(app.messages[1].text, "second");
    assert_eq!(app.last_seen_ts.as_deref(), Some("t2"));
}

#[test]
fn ctrl_c_clears_then_quits() {
    let mut app = App::new("ann", "", "t");
    app.input = "abc".to_string();
    app.cursor = 2;
    assert!(matches!(handle_key(&mut app, KeyInput::Interrupt), KeyOutcome::Redraw));
    assert_eq!(app.input, "");
    assert_eq!(app.cursor, 0);
    assert!(matches!(handle_key(&mut app, KeyInput::Interrupt), KeyOutcome::Quit));
    assert!(matches!(handle_key(&mut app, KeyInput::EndOfInput), KeyOutcome::Quit));
}

#[test]
fn escape_and_ctrl_u_clear_input() {
    let mut app = App::new("ann", "", "t");
    app.input = "abc".to_string();
    app.cursor = 3;
    assert!(matches!(handle_key(&mut app, KeyInput::Escape), KeyOutcome::Redraw));
    assert_eq!(app.input, "");
    app.input = "x".to_string();
    app.cursor = 1;
    handle_key(&mut app, KeyInput::ClearLine);
    assert_eq!(app.input, "");
    assert_eq!(app.cursor, 0);
}

#[test]
fn typing_and_editing_keys() {
    let mut app = App::new("ann", "", "t");
    for c in "hi yo".chars() {
        handle_key(&mut app, KeyInput::Char(c));
    }
    assert_eq!(app.input, "hi yo");
    assert!(matches!(handle_key(&mut app, KeyInput::Char('\u{1b}')), KeyOutcome::Idle));
    handle_key(&mut app, KeyInput::DeleteWord);
    assert_eq!(app.input, "hi ");
    handle_key(&mut app, KeyInput::Tab);
    assert_eq!(app.input, "hi   ");
    assert_eq!(app.cursor, 5);
    handle_key(&mut app, KeyInput::LineStart);
    assert_eq!(app.cursor, 0);
    handle_key(&mut app, KeyInput::Delete);
    assert_eq!(app.input, "i   ");
    handle_key(&mut app, KeyInput::End);
    handle_key(&mut app, KeyInput::Backspace);
    assert_eq!(app.input, "i  ");
    handle_key(&mut app, KeyInput::Left);
    handle_key(&mut app, KeyInput::Right);
    handle_key(&mut app, KeyInput::Right);
    assert_eq!(app.cursor, 3);
    assert!(matches!(handle_key(&mut app, KeyInput::Other), KeyOutcome::Idle));
}

#[test]
fn scrolling_keys_saturate() {
    let mut app = App::new("ann", "", "t");
    handle_key(&mut app, KeyInput::Down);
    assert_eq!(app.scroll, 0);
    handle_key(&mut app, KeyInput::PageUp);
    handle_key(&mut app, KeyInput::Up);
    assert_eq!(app.scroll, 10);
    handle_key(&mut app, KeyInput::PageDown);
    assert_eq!(app.scroll, 2);
    app.scroll = usize::MAX - 1;
    handle_key(&mut app, KeyInput::Up);
    assert_eq!(app.scroll, usize::MAX);
}

#[test]
fn help_key_sets_status() {
    let mut app = App::new("ann", "", "t");
    handle_key(&mut app, KeyInput::ToggleHelp);
    assert!(app.help_visible());
    assert_eq!(app.status, "Help opened");
    handle_key(&mut app, KeyInput::ToggleHelp);
    assert_eq!(app.status, "Help closed");
}

#[test]
fn enter_submits_trimmed_line() {
    let mut app = App::new("ann", "", "t");
    app.input = "   ".to_string();
    assert!(matches!(handle_key(&mut app, KeyInput::Enter), KeyOutcome::Redraw));
    app.input = "  /help ".to_string();
    match handle_key(&mut app, KeyInput::Enter) {
        KeyOutcome::Submit(t) => assert_eq!(t, "/help"),
        _ => panic!("expected a submission"),
    }
    app.scroll = 4;
    conclude_submission(&mut app, "help opened".to_string());
    assert_eq!(app.status, "help opened");
    assert_eq!(app.input, "");
    assert_eq!(app.cursor, 0);
    assert_eq!(app.scroll, 0);
}

#[test]
fn animation_windows() {
    let app = App::new("ann", "", "t");
    assert!(needs_animation(&app, Some(10), 5000));
    assert!(!needs_animation(&app, Some(300), 160));
    assert!(needs_animation(&app, None, 159));
    assert!(!needs_animation(&app, None, 1000));
}

fn mods(shift: bool, control: bool, others: bool) -> KeyMods {
    KeyMods { shift, control, others }
}

#[test]
fn key_table() {
    let none = mods(false, false, false);
    let ctrl = mods(false, true, false);
    let shift = mods(true, false, false);
    assert!(matches!(key_input(KeyName::Char('c'), ctrl), KeyInput::Interrupt));
    assert!(matches!(key_input(KeyName::Char('d'), ctrl), KeyInput::EndOfInput));
    assert!(matches!(key_input(KeyName::Char('h'), ctrl), KeyInput::ToggleHelp));
    assert!(matches!(key_input(KeyName::F(1), mods(true, true, true)), KeyInput::ToggleHelp));
    assert!(matches!(key_input(KeyName::F(2), none), KeyInput::Other));
    assert!(matches!(key_input(KeyName::Esc, none), KeyInput::Escape));
    assert!(matches!(key_input(KeyName::Esc, shift), KeyInput::Other));
    assert!(matches!(key_input(KeyName::Char('a'), ctrl), KeyInput::LineStart));
    assert!(matches!(key_input(KeyName::Char('e'), ctrl), KeyInput::LineEnd));
    assert!(matches!(key_input(KeyName::Char('u'), ctrl), KeyInput::ClearLine));
    assert!(matches!(key_input(KeyName::Char('w'), ctrl), KeyInput::DeleteWord));
    assert!(matches!(key_input(KeyName::Char('c'), none), KeyInput::Char('c')));
    assert!(matches!(key_input(KeyName::Char('C'), shift), KeyInput::Char('C')));
    assert!(matches!(key_input(KeyName::Char('c'), mods(true, true, false)), KeyInput::Other));
    assert!(matches!(key_input(KeyName::Char('x'), mods(false, false, true)), KeyInput::Other));
    assert!(matches!(key_input(KeyName::Enter, ctrl), KeyInput::Enter));
    assert!(matches!(key_input(KeyName::PageUp, none), KeyInput::PageUp));
    assert!(matches!(key_input(KeyName::Other, none), KeyInput::Other));
}
