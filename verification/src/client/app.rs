//! The state of the chat client.
use crate::timing::now_plus;
use std::time::{Duration, Instant};
use vstd::prelude::*;

verus! {

/// One chat message as the client shows it.
#[derive(Clone)]
pub struct Message {
    pub text: String,
    pub sender: String,
    pub is_mine: bool,
    pub created: Instant,
    /// Server-side message ID (empty for local-only messages)
    pub remote_id: String,
}

/// Whether the help panel is shown.
#[derive(Copy, Clone)]
pub enum HelpState {
    Closed,
    Open,
}

/// The whole client state: who is logged in where, the conversation, the
/// input line with its caret, the scroll offset, the help panel and the
/// status line.
pub struct App {
    pub username: String,
    pub server_url: String,
    pub token: String,
    pub messages: Vec<Message>,
    pub input: String,
    pub cursor: usize,
    pub scroll: usize,
    pub started: Instant,
    pub help: HelpState,
    pub help_toggled_at: Instant,
    pub status: String,
    pub status_until: Instant,
    /// Tracks the latest `created_at` seen from the server for polling
    pub last_seen_ts: Option<String>,
}

impl App {
    /// A fresh session for `username` on `server_url` with the session token
    /// `token`: no messages, an empty input line, help closed, and the status
    /// "Connected" shown for three seconds.
    pub fn new(username: &str, server_url: &str, token: &str) -> (r: Self)
        ensures
            r.username@ == username@,
            r.server_url@ == server_url@,
            r.token@ == token@,
            r.messages@.len() == 0,
            r.input@.len() == 0,
            r.cursor == 0,
            r.scroll == 0,
            r.help == HelpState::Closed,
            r.status@ == "Connected"@,
            r.last_seen_ts is None,
    {
        App {
            username: username.to_owned(),
            server_url: server_url.to_owned(),
            token: token.to_owned(),
            messages: Vec::new(),
            input: String::new(),
            cursor: 0,
            scroll: 0,
            started: Instant::now(),
            help: HelpState::Closed,
            help_toggled_at: Instant::now(),
            status: "Connected".to_owned(),
            status_until: now_plus(Duration::from_secs(3)),
            last_seen_ts: None,
        }
    }

    /// Shows `text` in the status line for `dur` from now.
    pub fn set_status(&mut self, text: String, dur: Duration)
        ensures
            final(self).status == text,
            *final(self) == (App { status: text, status_until: final(self).status_until, ..*old(self) }),
    {
        self.status = text;
        self.status_until = now_plus(dur);
    }

    /// Whether the help panel is open.
    pub fn help_visible(&self) -> (r: bool)
        ensures
            r == (self.help == HelpState::Open),
    {
        match self.help {
            HelpState::Open => true,
            HelpState::Closed => false,
        }
    }
}

} // verus!
