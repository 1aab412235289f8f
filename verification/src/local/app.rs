//! The state of the offline demo chat.
use crate::timing::{now_minus, now_plus};
use std::time::{Duration, Instant};
use vstd::prelude::*;

verus! {

/// One chat message: its text and whether the user wrote it.
#[derive(Clone)]
pub struct Message {
    pub text: String,
    pub is_mine: bool,
    pub created: Instant,
}

/// Whether the help panel is shown.
#[derive(Copy, Clone)]
pub enum HelpState {
    Closed,
    Open,
}

/// The demo chat state: the user's nickname, the conversation, the input
/// line with its caret, the scroll offset, the help panel and the status
/// line.
pub struct App {
    pub my_nick: String,
    pub messages: Vec<Message>,
    pub input: String,
    pub cursor: usize,
    pub scroll: usize,
    pub started: Instant,
    pub help: HelpState,
    pub help_toggled_at: Instant,
    pub status: String,
    pub status_until: Instant,
}

impl App {
    /// A demo session for `nick` that opens with three sample messages (two
    /// from the peer, one from the user), an empty input line, help closed
    /// and the status "Ready".
    pub fn new(nick: &str) -> (r: Self)
        ensures
            r.my_nick@ == nick@,
            r.messages@.len() == 3,
            r.messages@[0].text@ == "Привет! Как дела?"@ && !r.messages@[0].is_mine,
            r.messages@[1].text@ == "Отлично, спасибо!"@ && r.messages@[1].is_mine,
            r.messages@[2].text@ == "Что нового у тебя?"@ && !r.messages@[2].is_mine,
            r.input@.len() == 0,
            r.cursor == 0,
            r.scroll == 0,
            r.help == HelpState::Closed,
            r.status@ == "Ready"@,
    {
        let mut messages: Vec<Message> = Vec::new();
        messages.push(
            Message {
                text: "Привет! Как дела?".to_owned(),
                is_mine: false,
                created: now_minus(Duration::from_millis(300)),
            },
        );
        messages.push(
            Message {
                text: "Отлично, спасибо!".to_owned(),
                is_mine: true,
                created: now_minus(Duration::from_millis(300)),
            },
        );
        messages.push(
            Message {
                text: "Что нового у тебя?".to_owned(),
                is_mine: false,
                created: now_minus(Duration::from_millis(300)),
            },
        );
        App {
            my_nick: nick.to_owned(),
            messages,
            input: String::new(),
            cursor: 0,
            scroll: 0,
            started: Instant::now(),
            help: HelpState::Closed,
            help_toggled_at: Instant::now(),
            status: "Ready".to_owned(),
            status_until: Instant::now(),
        }
    }

    /// Shows `text` in the status line for `dur` from now.
    pub fn set_status(&mut self, text: String, dur: Duration)
        ensures
            final(self).status == text,
            *final(self) == (App { status: text, status_until: final(self).status_until, ..*old(self) }),
    {
        self.status = text;
        self.status_until = now_plus(dur);
    }
}

} // verus!
