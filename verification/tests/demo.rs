use zappaw::local::app::{App, HelpState};
use zappaw::local::commands::{transcript, APP_NAME, COMMAND_FILE};
use std::time::Duration;

#[test]
fn demo_session_opens_with_samples() {
    let app = App::new("ann");
    assert_eq!(app.my_nick, "ann");
    assert_eq!(app.messages.len(), 3);
    assert_eq!(app.messages[0].text, "Привет! Как дела?");
    assert!(app.messages[1].is_mine);
    assert_eq!(app.status, "Ready");
    assert!(matches!(app.help, HelpState::Closed));
}

#[test]
fn demo_status_and_transcript() {
    let mut app = App::new("ann");
    app.set_status("Saved".to_string(), Duration::from_secs(2));
    assert_eq!(app.status, "Saved");
    let t = transcript(&app);
    assert_eq!(
        t,
        format!(
            "{}\nnick: ann\n---\n#1 [peer] Привет! Как дела?\n#2 [ann] Отлично, спасибо!\n#3 [peer] Что нового у тебя?\n",
            APP_NAME
        )
    );
    assert_eq!(COMMAND_FILE, "zappawcli_messages.txt");
}
