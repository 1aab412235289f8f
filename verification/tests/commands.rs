use zappaw::client::api::MessageResponse;
use zappaw::client::app::{App, HelpState};
use zappaw::client::commands::{
    classify_command, finish_refresh, finish_save, finish_send, run_command, transcript,
    CommandEffect, CommandKind, APP_NAME, COMMAND_FILE,
};

fn response(id: &str, user: &str, content: &str, at: &str) -> MessageResponse {
    MessageResponse {
        id: id.to_string(),
        username: user.to_string(),
        content: content.to_string(),
        created_at: at.to_string(),
    }
}

fn done_text(e: CommandEffect) -> String {
    match e {
        CommandEffect::Done(s) => s,
        _ => panic!("expected a finished command"),
    }
}

#[test]
fn new_session_state() {
    let app = App::new("ann", "http://host", "tok");
    assert_eq!(app.username, "ann");
    assert_eq!(app.server_url, "http://host");
    assert_eq!(app.token, "tok");
    assert!(app.messages.is_empty());
    assert_eq!(app.status, "Connected");
    assert!(!app.help_visible());
    assert!(app.last_seen_ts.is_none());
}

#[test]
fn plain_line_is_sent_trimmed() {
    let mut app = App::new("ann", "", "t");
    match run_command(&mut app, "  hi there  ") {
        CommandEffect::Send { text, action } => {
            assert_eq!(text, "hi there");
            assert!(!action);
        }
        _ => panic!("expected a send"),
    }
}

#[test]
fn help_toggles_twice() {
    let mut app = App::new("ann", "", "t");
    assert_eq!(done_text(run_command(&mut app, "/help")), "help opened");
    assert!(app.help_visible());
    assert_eq!(done_text(run_command(&mut app, "/HELP")), "help closed");
    assert!(matches!(app.help, HelpState::Closed));
}

#[test]
fn nick_changes_name_or_shows_usage() {
    let mut app = App::new("ann", "", "t");
    assert_eq!(done_text(run_command(&mut app, "/nick")), "usage: /nick NAME (local only)");
    assert_eq!(done_text(run_command(&mut app, "/nick   bob  ")), "display name changed to bob");
    assert_eq!(app.username, "bob");
}

#[test]
fn me_builds_action_text() {
    let mut app = App::new("ann", "", "t");
    assert_eq!(done_text(run_command(&mut app, "/me")), "usage: /me TEXT");
    match run_command(&mut app, "/me waves hello") {
        CommandEffect::Send { text, action } => {
            assert_eq!(text, "* ann waves hello");
            assert!(action);
        }
        _ => panic!("expected a send"),
    }
}

#[test]
fn scrolling_clearing_and_unknown() {
    let mut app = App::new("ann", "", "t");
    assert_eq!(done_text(run_command(&mut app, "/top")), "jumped to top");
    assert_eq!(app.scroll, usize::MAX);
    assert_eq!(done_text(run_command(&mut app, "//Bottom")), "jumped to bottom");
    assert_eq!(app.scroll, 0);
    app.input = "draft".to_string();
    app.cursor = 3;
    assert_eq!(done_text(run_command(&mut app, "/clearinput")), "input cleared");
    assert_eq!(app.input, "");
    assert_eq!(app.cursor, 0);
    assert_eq!(done_text(run_command(&mut app, "/dance")), "unknown command; try /help");
}

#[test]
fn clear_and_refresh_empty_the_chat() {
    let mut app = App::new("ann", "", "t");
    finish_send(&mut app, false, Ok(response("1", "ann", "x", "t1")));
    app.last_seen_ts = Some("t1".to_string());
    assert_eq!(done_text(run_command(&mut app, "/clear")), "chat cleared");
    assert!(app.messages.is_empty());
    assert!(app.last_seen_ts.is_none());
    finish_send(&mut app, false, Ok(response("2", "ann", "y", "t2")));
    assert!(matches!(run_command(&mut app, "/refresh"), CommandEffect::Refresh));
    assert!(app.messages.is_empty());
    assert!(matches!(run_command(&mut app, "/save"), CommandEffect::Save));
}

#[test]
fn classify_names() {
    assert!(classify_command("help") == CommandKind::Help);
    assert!(classify_command("clearinput") == CommandKind::ClearInput);
    assert!(classify_command("Help") == CommandKind::Unknown);
    assert!(classify_command("") == CommandKind::Unknown);
}

#[test]
fn send_outcomes() {
    let mut app = App::new("ann", "", "t");
    assert_eq!(finish_send(&mut app, false, Ok(response("7", "ann", "hey", "t"))), "sent");
    assert_eq!(app.messages.len(), 1);
    assert_eq!(app.messages[0].text, "hey");
    assert_eq!(app.messages[0].remote_id, "7");
    assert!(app.messages[0].is_mine);
    assert_eq!(finish_send(&mut app, true, Ok(response("8", "ann", "* ann waves", "t"))), "action sent");
    assert_eq!(finish_send(&mut app, false, Err("timeout".to_string())), "send failed: timeout");
    assert_eq!(app.messages.len(), 2);
}

#[test]
fn save_outcomes() {
    assert_eq!(finish_save(Ok(())), format!("saved to {}", COMMAND_FILE));
    assert_eq!(finish_save(Err("disk full".to_string())), "save failed: disk full");
}

#[test]
fn refresh_outcomes() {
    let mut app = App::new("ann", "", "t");
    let msgs = vec![response("1", "bob", "hi", "t1"), response("2", "ann", "yo", "t2")];
    assert_eq!(finish_refresh(&mut app, Ok(msgs)), "refreshed: 2 messages");
    assert_eq!(app.messages.len(), 2);
    assert!(!app.messages[0].is_mine);
    assert!(app.messages[1].is_mine);
    assert_eq!(app.last_seen_ts.as_deref(), Some("t2"));
    assert_eq!(finish_refresh(&mut app, Ok(vec![])), "refreshed: 0 messages");
    assert_eq!(finish_refresh(&mut app, Err("503".to_string())), "refresh failed: 503");
}

#[test]
fn transcript_lists_messages() {
    let mut app = App::new("ann", "", "t");
    finish_send(&mut app, false, Ok(response("1", "ann", "hello", "t1")));
    finish_send(&mut app, false, Ok(response("2", "bob", "hi", "t2")));
    assert_eq!(
        transcript(&app),
        format!("{}\nuser: ann\n---\n#1 [ann] hello\n#2 [bob] hi\n", APP_NAME)
    );
}

#[test]
fn help_command_in_capitals_toggles_twice() {
    let mut app = App::new("ann", "", "t");
    assert_eq!(done_text(run_command(&mut app, "  /HeLP  ")), "help opened");
    assert!(matches!(app.help, HelpState::Open));
    assert_eq!(done_text(run_command(&mut app, "/HELP")), "help closed");
    assert!(matches!(app.help, HelpState::Closed));
    assert_eq!(app.username, "ann");
    assert!(app.messages.is_empty());
}
