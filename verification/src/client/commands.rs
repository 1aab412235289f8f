//! Slash commands and plain chat lines. A line either changes the client
//! state at once, or it asks the caller to talk to the server or the disk
//! and report back; the `finish_*` functions take that report.
use crate::chars::{all_ascii, ascii_lowered, chars_of, decimal, push_all, push_decimal, str_is, string_from, trim, trim_ws};
use crate::client::api::MessageResponse;
use crate::client::app::{App, HelpState, Message};
use std::time::Instant;
use vstd::prelude::*;

verus! {

pub const APP_NAME: &'static str = "zappawcli";

pub const COMMAND_FILE: &'static str = "zappawcli_messages.txt";

/// What `str::to_lowercase` returns for `s`: its lowercase equivalent by the
/// Unicode `Lowercase` mapping.
pub uninterp spec fn lowercase(s: Seq<char>) -> Seq<char>;

/// Calls `str::to_lowercase`. The result is the name `lowercase(s@)`; of
/// the Unicode case tables behind it only the ASCII part is restated: a
/// string of ASCII characters comes back with its capital letters `A`-`Z`
/// turned into `a`-`z` and every other character unchanged.
#[verifier::external_body]
fn lowercase_of(s: &str) -> (r: String)
    ensures
        r@ == lowercase(s@),
        all_ascii(s@) ==> r@ == ascii_lowered(s@),
{
    s.to_lowercase()
}

/// The commands the client knows.
#[derive(Copy, Clone, PartialEq, Eq, Structural)]
pub enum CommandKind {
    Help,
    Clear,
    Nick,
    Save,
    Me,
    Refresh,
    Top,
    Bottom,
    ClearInput,
    Unknown,
}

/// The command that a lowercased command name stands for.
pub open spec fn kind_of(name: Seq<char>) -> CommandKind {
    if name == "help"@ {
        CommandKind::Help
    } else if name == "clear"@ {
        CommandKind::Clear
    } else if name == "nick"@ {
        CommandKind::Nick
    } else if name == "save"@ {
        CommandKind::Save
    } else if name == "me"@ {
        CommandKind::Me
    } else if name == "refresh"@ {
        CommandKind::Refresh
    } else if name == "top"@ {
        CommandKind::Top
    } else if name == "bottom"@ {
        CommandKind::Bottom
    } else if name == "clearinput"@ {
        CommandKind::ClearInput
    } else {
        CommandKind::Unknown
    }
}

/// The command that the (already lowercased) command name `name` stands for.
pub fn classify_command(name: &str) -> (r: CommandKind)
    ensures
        r == kind_of(name@),
{
    if str_is(name, "help") {
        CommandKind::Help
    } else if str_is(name, "clear") {
        CommandKind::Clear
    } else if str_is(name, "nick") {
        CommandKind::Nick
    } else if str_is(name, "save") {
        CommandKind::Save
    } else if str_is(name, "me") {
        CommandKind::Me
    } else if str_is(name, "refresh") {
        CommandKind::Refresh
    } else if str_is(name, "top") {
        CommandKind::Top
    } else if str_is(name, "bottom") {
        CommandKind::Bottom
    } else if str_is(name, "clearinput") {
        CommandKind::ClearInput
    } else {
        CommandKind::Unknown
    }
}

/// The index of the first space in `s`, or its length when it has none.
pub open spec fn first_space(s: Seq<char>) -> nat
    decreases s.len(),
{
    if s.len() == 0 {
        0
    } else if s[0] == ' ' {
        0
    } else {
        1 + first_space(s.drop_first())
    }
}

/// `s` without its leading slashes.
pub open spec fn strip_leading_slashes(s: Seq<char>) -> Seq<char>
    decreases s.len(),
{
    if s.len() > 0 && s[0] == '/' {
        strip_leading_slashes(s.drop_first())
    } else {
        s
    }
}

/// The command name of a command line: its first space-separated word
/// without leading slashes.
pub open spec fn command_name(raw: Seq<char>) -> Seq<char> {
    strip_leading_slashes(raw.take(first_space(raw) as int))
}

/// The argument of a command line: what follows its first space, trimmed;
/// nothing when it has no space.
pub open spec fn command_arg(raw: Seq<char>) -> Seq<char> {
    if first_space(raw) < raw.len() {
        trim_ws(raw.skip(first_space(raw) + 1int))
    } else {
        Seq::empty()
    }
}

/// Whether a trimmed line is a command: it starts with a slash.
pub open spec fn is_command(raw: Seq<char>) -> bool {
    raw.len() > 0 && raw[0] == '/'
}

/// The command that a trimmed command line asks for.
pub open spec fn requested(raw: Seq<char>) -> CommandKind {
    kind_of(lowercase(command_name(raw)))
}

/// What `run_command` learns of the name `lowercase` on the command name of
/// `line`: when that name is all ASCII, lowercasing it lowers its ASCII
/// capital letters and nothing else.
pub open spec fn command_case_folded(line: Seq<char>) -> bool {
    let name = command_name(trim_ws(line));
    is_command(trim_ws(line)) && all_ascii(name) ==> lowercase(name) == ascii_lowered(name)
}

/// What the caller has to do after `run_command`.
pub enum CommandEffect {
    /// Nothing more: the text is the status to show.
    Done(String),
    /// Post `text` to the server, then report with `finish_send`; `action`
    /// tells a `/me` action from a plain chat line.
    Send { text: String, action: bool },
    /// Write `transcript(app)` to `COMMAND_FILE`, then report with
    /// `finish_save`.
    Save,
    /// Fetch the last 50 messages, then report with `finish_refresh`.
    Refresh,
}

/// The help state after a toggle.
pub open spec fn toggled(h: HelpState) -> HelpState {
    match h {
        HelpState::Closed => HelpState::Open,
        HelpState::Open => HelpState::Closed,
    }
}

/// Whether `effect` is `Done` with the text `s`.
pub open spec fn done_with(effect: CommandEffect, s: Seq<char>) -> bool {
    effect matches CommandEffect::Done(t) && t@ == s
}

/// What running the command line `line` does to the client state and which
/// effect it hands back.
pub open spec fn command_outcome(before: App, after: App, line: Seq<char>, effect: CommandEffect) -> bool {
    let raw = trim_ws(line);
    let arg = command_arg(raw);
    if !is_command(raw) {
        &&& effect matches CommandEffect::Send { text, action } && text@ == raw && !action
        &&& after == before
    } else {
        match requested(raw) {
            CommandKind::Help => {
                &&& after.help == toggled(before.help)
                &&& after == (App { help: after.help, help_toggled_at: after.help_toggled_at, ..before })
                &&& done_with(
                    effect,
                    if after.help == HelpState::Open {
                        "help opened"@
                    } else {
                        "help closed"@
                    },
                )
            },
            CommandKind::Clear => {
                &&& after.messages@.len() == 0
                &&& after == (App { messages: after.messages, last_seen_ts: None, ..before })
                &&& done_with(effect, "chat cleared"@)
            },
            CommandKind::Nick => if arg.len() == 0 {
                &&& after == before
                &&& done_with(effect, "usage: /nick NAME (local only)"@)
            } else {
                &&& after.username@ == arg
                &&& after == (App { username: after.username, ..before })
                &&& done_with(effect, "display name changed to "@ + arg)
            },
            CommandKind::Save => {
                &&& after == before
                &&& effect is Save
            },
            CommandKind::Me => if arg.len() == 0 {
                &&& after == before
                &&& done_with(effect, "usage: /me TEXT"@)
            } else {
                &&& after == before
                &&& effect matches CommandEffect::Send { text, action } && text@ == "* "@
                    + before.username@ + " "@ + arg && action
            },
            CommandKind::Refresh => {
                &&& after.messages@.len() == 0
                &&& after == (App { messages: after.messages, last_seen_ts: None, ..before })
                &&& effect is Refresh
            },
            CommandKind::Top => {
                &&& after == (App { scroll: usize::MAX, ..before })
                &&& done_with(effect, "jumped to top"@)
            },
            CommandKind::Bottom => {
                &&& after == (App { scroll: 0, ..before })
                &&& done_with(effect, "jumped to bottom"@)
            },
            CommandKind::ClearInput => {
                &&& after.input@.len() == 0
                &&& after == (App { input: after.input, cursor: 0, ..before })
                &&& done_with(effect, "input cleared"@)
            },
            CommandKind::Unknown => {
                &&& after == before
                &&& done_with(effect, "unknown command; try /help"@)
            },
        }
    }
}

/// The decision part of running a chat line: a line that does not start
/// with `/` is to be sent as it is (trimmed); otherwise its first word names
/// the command (slashes stripped, lowercased) and the rest, trimmed, is its
/// argument. Commands that need the server or the disk come back as an
/// effect for the caller to carry out.
pub fn run_command(app: &mut App, line: &str) -> (effect: CommandEffect)
    ensures
        command_outcome(*old(app), *final(app), line@, effect),
        command_case_folded(line@),
{
    let raw = trim(line);
    let rcs = chars_of(raw.as_str());
    let n = rcs.len();
    if n == 0 || rcs[0] != '/' {
        return CommandEffect::Send { text: raw, action: false };
    }
    let ghost r = rcs@;
    let mut sp: usize = 0;
    assert(r.skip(0) =~= r);
    while sp < n && rcs[sp] != ' '
        invariant
            rcs@ == r,
            n == r.len(),
            sp <= n,
            first_space(r) == sp + first_space(r.skip(sp as int)),
        decreases n - sp,
    {
        assert(r.skip(sp as int).drop_first() =~= r.skip(sp + 1));
        sp += 1;
    }
    proof {
        if sp == n {
            assert(r.skip(n as int).len() == 0);
        }
    }
    let mut start: usize = 0;
    assert(r.take(sp as int).subrange(0, sp as int) =~= r.take(sp as int));
    while start < sp && rcs[start] == '/'
        invariant
            rcs@ == r,
            sp <= n == r.len(),
            start <= sp,
            first_space(r) == sp,
            command_name(r) == strip_leading_slashes(r.subrange(start as int, sp as int)),
        decreases sp - start,
    {
        assert(r.subrange(start as int, sp as int).drop_first() =~= r.subrange(start + 1, sp as int));
        start += 1;
    }
    let name = string_from(&rcs, start, sp);
    let arg = if sp < n {
        let rest = string_from(&rcs, sp + 1, n);
        assert(rest@ =~= r.skip(sp + 1));
        trim(rest.as_str())
    } else {
        String::new()
    };
    let lowered = lowercase_of(name.as_str());
    match classify_command(lowered.as_str()) {
        CommandKind::Help => {
            app.help = match app.help {
                HelpState::Closed => HelpState::Open,
                HelpState::Open => HelpState::Closed,
            };
            app.help_toggled_at = Instant::now();
            if app.help_visible() {
                CommandEffect::Done("help opened".to_owned())
            } else {
                CommandEffect::Done("help closed".to_owned())
            }
        },
        CommandKind::Clear => {
            app.messages.clear();
            app.last_seen_ts = None;
            CommandEffect::Done("chat cleared".to_owned())
        },
        CommandKind::Nick => {
            if arg.as_str().is_empty() {
                CommandEffect::Done("usage: /nick NAME (local only)".to_owned())
            } else {
                let mut reply = "display name changed to ".to_owned();
                push_all(&mut reply, arg.as_str());
                app.username = arg;
                CommandEffect::Done(reply)
            }
        },
        CommandKind::Save => CommandEffect::Save,
        CommandKind::Me => {
            if arg.as_str().is_empty() {
                CommandEffect::Done("usage: /me TEXT".to_owned())
            } else {
                let mut text = "* ".to_owned();
                push_all(&mut text, app.username.as_str());
                push_all(&mut text, " ");
                push_all(&mut text, arg.as_str());
                CommandEffect::Send { text, action: true }
            }
        },
        CommandKind::Refresh => {
            app.messages.clear();
            app.last_seen_ts = None;
            CommandEffect::Refresh
        },
        CommandKind::Top => {
            app.scroll = usize::MAX;
            CommandEffect::Done("jumped to top".to_owned())
        },
        CommandKind::Bottom => {
            app.scroll = 0;
            CommandEffect::Done("jumped to bottom".to_owned())
        },
        CommandKind::ClearInput => {
            app.input = String::new();
            app.cursor = 0;
            CommandEffect::Done("input cleared".to_owned())
        },
        CommandKind::Unknown => CommandEffect::Done("unknown command; try /help".to_owned()),
    }
}

/// Whether the shown message `m` holds what the server reported in `r`,
/// marked as the user's own exactly when `r` comes from `me`, and stamped
/// with `created`.
pub open spec fn shows(m: Message, r: MessageResponse, me: Seq<char>, created: Instant) -> bool {
    &&& m.text@ == r.content@
    &&& m.sender@ == r.username@
    &&& m.remote_id@ == r.id@
    &&& m.is_mine == (r.username@ == me)
    &&& m.created == created
}

/// Appends the server messages `msgs` to the conversation, in order, each
/// stamped `created` and marked as the user's own when its sender is the
/// user's name. Nothing else changes.
pub fn append_history(app: &mut App, msgs: &Vec<MessageResponse>, created: Instant)
    ensures
        final(app).messages@.len() == old(app).messages@.len() + msgs@.len(),
        forall|i: int| 0 <= i < old(app).messages@.len() ==> final(app).messages@[i] == old(app).messages@[i],
        forall|j: int|
            0 <= j < msgs@.len() ==> shows(
                #[trigger] final(app).messages@[old(app).messages@.len() + j],
                msgs@[j],
                old(app).username@,
                created,
            ),
        *final(app) == (App { messages: final(app).messages, ..*old(app) }),
{
    let ghost before = *app;
    let mut i: usize = 0;
    while i < msgs.len()
        invariant
            i <= msgs@.len(),
            app.messages@.len() == before.messages@.len() + i,
            forall|k: int| 0 <= k < before.messages@.len() ==> app.messages@[k] == before.messages@[k],
            forall|j: int|
                0 <= j < i ==> shows(
                    #[trigger] app.messages@[before.messages@.len() + j],
                    msgs@[j],
                    before.username@,
                    created,
                ),
            *app == (App { messages: app.messages, ..before }),
        decreases msgs@.len() - i,
    {
        let r = &msgs[i];
        let m = Message {
            text: r.content.clone(),
            sender: r.username.clone(),
            is_mine: r.username == app.username,
            created: created,
            remote_id: r.id.clone(),
        };
        app.messages.push(m);
        i += 1;
    }
}

/// The status after posting a chat line (`action` false) or a `/me` action
/// (`action` true): on success the server's copy of the message joins the
/// conversation as the user's own and the status is "sent" or "action
/// sent"; on failure nothing changes and the status is "send failed: "
/// followed by the error.
pub fn finish_send(app: &mut App, action: bool, outcome: Result<MessageResponse, String>) -> (r: String)
    ensures
        outcome is Ok ==> {
            &&& final(app).messages@.len() == old(app).messages@.len() + 1
            &&& forall|i: int| 0 <= i < old(app).messages@.len() ==> final(app).messages@[i] == old(app).messages@[i]
            &&& {
                let m = final(app).messages@[old(app).messages@.len() as int];
                let resp = outcome->Ok_0;
                m.text@ == resp.content@ && m.sender@ == resp.username@ && m.remote_id@ == resp.id@ && m.is_mine
            }
            &&& *final(app) == (App { messages: final(app).messages, ..*old(app) })
            &&& r@ == (if action { "action sent"@ } else { "sent"@ })
        },
        outcome is Err ==> *final(app) == *old(app) && r@ == "send failed: "@ + outcome->Err_0@,
{
    match outcome {
        Ok(resp) => {
            app.messages.push(
                Message {
                    text: resp.content,
                    sender: resp.username,
                    is_mine: true,
                    created: Instant::now(),
                    remote_id: resp.id,
                },
            );
            if action {
                "action sent".to_owned()
            } else {
                "sent".to_owned()
            }
        },
        Err(e) => {
            let mut msg = "send failed: ".to_owned();
            push_all(&mut msg, e.as_str());
            msg
        },
    }
}

/// The status after writing the transcript: "saved to " and the file name,
/// or "save failed: " followed by the error.
pub fn finish_save(outcome: Result<(), String>) -> (r: String)
    ensures
        outcome is Ok ==> r@ == "saved to "@ + COMMAND_FILE@,
        outcome is Err ==> r@ == "save failed: "@ + outcome->Err_0@,
{
    match outcome {
        Ok(()) => {
            let mut msg = "saved to ".to_owned();
            push_all(&mut msg, COMMAND_FILE);
            msg
        },
        Err(e) => {
            let mut msg = "save failed: ".to_owned();
            push_all(&mut msg, e.as_str());
            msg
        },
    }
}

/// The status after fetching history for `/refresh` (which already emptied
/// the conversation): on success the fetched messages are appended, the
/// last one's timestamp is remembered, and the status reports how many came;
/// on failure nothing changes and the status is "refresh failed: " followed
/// by the error.
pub fn finish_refresh(app: &mut App, outcome: Result<Vec<MessageResponse>, String>) -> (r: String)
    ensures
        outcome is Ok ==> {
            let msgs = outcome->Ok_0@;
            &&& final(app).messages@.len() == old(app).messages@.len() + msgs.len()
            &&& forall|i: int| 0 <= i < old(app).messages@.len() ==> final(app).messages@[i] == old(app).messages@[i]
            &&& forall|j: int|
                0 <= j < msgs.len() ==> {
                    let m = #[trigger] final(app).messages@[old(app).messages@.len() + j];
                    &&& m.text@ == msgs[j].content@
                    &&& m.sender@ == msgs[j].username@
                    &&& m.remote_id@ == msgs[j].id@
                    &&& m.is_mine == (msgs[j].username@ == old(app).username@)
                }
            &&& msgs.len() > 0 ==> (final(app).last_seen_ts matches Some(t) && t@ == msgs.last().created_at@)
            &&& msgs.len() == 0 ==> final(app).last_seen_ts == old(app).last_seen_ts
            &&& *final(app) == (App { messages: final(app).messages, last_seen_ts: final(app).last_seen_ts, ..*old(app) })
            &&& r@ == "refreshed: "@ + decimal(msgs.len()) + " messages"@
        },
        outcome is Err ==> *final(app) == *old(app) && r@ == "refresh failed: "@ + outcome->Err_0@,
{
    match outcome {
        Ok(msgs) => {
            let ghost before = *app;
            let now = Instant::now();
            append_history(app, &msgs, now);
            let ghost appended = *app;
            let n = msgs.len();
            if n > 0 {
                app.last_seen_ts = Some(msgs[n - 1].created_at.clone());
            }
            assert forall|j: int| 0 <= j < msgs@.len() implies {
                let m = #[trigger] app.messages@[before.messages@.len() + j];
                &&& m.text@ == msgs@[j].content@
                &&& m.sender@ == msgs@[j].username@
                &&& m.remote_id@ == msgs@[j].id@
                &&& m.is_mine == (msgs@[j].username@ == before.username@)
            } by {
                assert(shows(appended.messages@[before.messages@.len() + j], msgs@[j], before.username@, now));
            }
            let mut msg = "refreshed: ".to_owned();
            push_decimal(&mut msg, n as u64);
            push_all(&mut msg, " messages");
            msg
        },
        Err(e) => {
            let mut msg = "refresh failed: ".to_owned();
            push_all(&mut msg, e.as_str());
            msg
        },
    }
}

/// One line of the saved transcript: the message's number, its sender in
/// brackets, and its text.
pub open spec fn transcript_line(k: nat, m: Message) -> Seq<char> {
    "#"@ + decimal(k) + " ["@ + m.sender@ + "] "@ + m.text@ + "\n"@
}

/// The transcript lines of `msgs`, numbered from one.
pub open spec fn transcript_body(msgs: Seq<Message>) -> Seq<char>
    decreases msgs.len(),
{
    if msgs.len() == 0 {
        Seq::empty()
    } else {
        transcript_body(msgs.drop_last()) + transcript_line(msgs.len(), msgs.last())
    }
}

/// The saved transcript: the application name, the user, a separator line,
/// and one numbered line per message.
pub open spec fn transcript_of(username: Seq<char>, msgs: Seq<Message>) -> Seq<char> {
    APP_NAME@ + "\n"@ + "user: "@ + username + "\n"@ + "---\n"@ + transcript_body(msgs)
}

/// The text that `/save` writes to `COMMAND_FILE`.
pub fn transcript(app: &App) -> (r: String)
    ensures
        r@ == transcript_of(app.username@, app.messages@),
{
    let mut out = APP_NAME.to_owned();
    push_all(&mut out, "\n");
    push_all(&mut out, "user: ");
    push_all(&mut out, app.username.as_str());
    push_all(&mut out, "\n");
    push_all(&mut out, "---\n");
    let ghost head = out@;
    let mut i: usize = 0;
    assert(app.messages@.take(0) =~= Seq::<Message>::empty());
    while i < app.messages.len()
        invariant
            i <= app.messages@.len(),
            out@ == head + transcript_body(app.messages@.take(i as int)),
        decreases app.messages@.len() - i,
    {
        let msg = &app.messages[i];
        let ghost prev = out@;
        push_all(&mut out, "#");
        push_decimal(&mut out, (i + 1) as u64);
        push_all(&mut out, " [");
        push_all(&mut out, msg.sender.as_str());
        push_all(&mut out, "] ");
        push_all(&mut out, msg.text.as_str());
        push_all(&mut out, "\n");
        assert(app.messages@.take(i + 1).drop_last() =~= app.messages@.take(i as int));
        assert(out@ =~= prev + transcript_line((i + 1) as nat, app.messages@[i as int]));
        i += 1;
    }
    assert(app.messages@.take(app.messages@.len() as int) =~= app.messages@);
    assert(out@ =~= transcript_of(app.username@, app.messages@));
    out
}

} // verus!
