//! The decisions of the client's event loop: merging messages polled from
//! the server, loading the first page of history, and what each key does.
use crate::chars::{is_control, is_control_char, trim, trim_ws};
use crate::client::api::MessageResponse;
use crate::client::app::{App, HelpState, Message};
use crate::client::commands::{append_history, shows, toggled};
use crate::client::input::{
    backspaced, caret_left, caret_right, deleted_forward, delAtCursor, erase_prev, goToEnd,
    insertChar, jump_to_start, moveRight, shift_caret_left, sweep_previous_word, typed,
    word_start, word_swept, skip_space_back, lemma_skip_space_back_bounds, lemma_skip_word_back_bounds,
};
use crate::timing::now_minus;
use std::time::{Duration, Instant};
use vstd::prelude::*;

verus! {

/// The server IDs of the shown messages.
pub open spec fn ids_of(msgs: Seq<Message>) -> Seq<Seq<char>> {
    msgs.map_values(|m: Message| m.remote_id@)
}

/// The IDs of server messages.
pub open spec fn response_ids(rs: Seq<MessageResponse>) -> Seq<Seq<char>> {
    rs.map_values(|r: MessageResponse| r.id@)
}

/// The messages of `incoming`, in order, whose ID is neither among `known`
/// nor among the IDs of earlier messages of `incoming`.
pub open spec fn fresh(known: Seq<Seq<char>>, incoming: Seq<MessageResponse>) -> Seq<MessageResponse>
    decreases incoming.len(),
{
    if incoming.len() == 0 {
        Seq::empty()
    } else if known.contains(incoming[0].id@) {
        fresh(known, incoming.drop_first())
    } else {
        seq![incoming[0]] + fresh(known.push(incoming[0].id@), incoming.drop_first())
    }
}

/// Whether one of `msgs` carries the server ID `id`.
fn has_remote_id(msgs: &Vec<Message>, id: &String) -> (r: bool)
    ensures
        r == ids_of(msgs@).contains(id@),
{
    let mut i: usize = 0;
    while i < msgs.len()
        invariant
            i <= msgs@.len(),
            forall|k: int| 0 <= k < i ==> msgs@[k].remote_id@ != id@,
        decreases msgs@.len() - i,
    {
        if msgs[i].remote_id == *id {
            assert(ids_of(msgs@)[i as int] == id@);
            return true;
        }
        i += 1;
    }
    assert forall|k: int| 0 <= k < ids_of(msgs@).len() implies ids_of(msgs@)[k] != id@ by {
        assert(ids_of(msgs@)[k] == msgs@[k].remote_id@);
    }
    false
}

proof fn lemma_fresh_step(known: Seq<Seq<char>>, incoming: Seq<MessageResponse>, i: int)
    requires
        0 <= i < incoming.len(),
    ensures
        fresh(known, incoming.skip(i)) == (if known.contains(incoming[i].id@) {
            fresh(known, incoming.skip(i + 1))
        } else {
            seq![incoming[i]] + fresh(known.push(incoming[i].id@), incoming.skip(i + 1))
        }),
{
    assert(incoming.skip(i).drop_first() =~= incoming.skip(i + 1));
    assert(incoming.skip(i)[0] == incoming[i]);
}

/// Merges messages polled from the server into the conversation: each
/// message whose ID is not shown yet is appended (in order, stamped now,
/// marked as the user's own when its sender is the user's name), and the
/// timestamp of the last polled message is remembered. Returns how many
/// messages were new.
pub fn merge_server_messages(app: &mut App, msgs: &Vec<MessageResponse>) -> (new_count: usize)
    ensures
        ({
            let f = fresh(ids_of(old(app).messages@), msgs@);
            &&& new_count == f.len()
            &&& final(app).messages@.len() == old(app).messages@.len() + f.len()
            &&& forall|i: int| 0 <= i < old(app).messages@.len() ==> final(app).messages@[i] == old(app).messages@[i]
            &&& forall|j: int|
                0 <= j < f.len() ==> {
                    let m = #[trigger] final(app).messages@[old(app).messages@.len() + j];
                    &&& m.text@ == f[j].content@
                    &&& m.sender@ == f[j].username@
                    &&& m.remote_id@ == f[j].id@
                    &&& m.is_mine == (f[j].username@ == old(app).username@)
                }
            &&& ids_of(final(app).messages@) == ids_of(old(app).messages@) + response_ids(f)
        }),
        msgs@.len() > 0 ==> (final(app).last_seen_ts matches Some(t) && t@ == msgs@.last().created_at@),
        msgs@.len() == 0 ==> final(app).last_seen_ts == old(app).last_seen_ts,
        *final(app) == (App { messages: final(app).messages, last_seen_ts: final(app).last_seen_ts, ..*old(app) }),
{
    let ghost before = *app;
    let ghost known0 = ids_of(before.messages@);
    let ghost mut added: Seq<MessageResponse> = Seq::empty();
    let mut new_count: usize = 0;
    let n = msgs.len();
    let mut i: usize = 0;
    assert(msgs@.skip(0) =~= msgs@);
    assert(ids_of(before.messages@) + response_ids(added) =~= ids_of(before.messages@));
    while i < n
        invariant
            n == msgs@.len(),
            i <= n,
            new_count == added.len(),
            added.len() <= i,
            added + fresh(ids_of(app.messages@), msgs@.skip(i as int)) == fresh(known0, msgs@),
            known0 == ids_of(before.messages@),
            ids_of(app.messages@) == known0 + response_ids(added),
            app.messages@.len() == before.messages@.len() + added.len(),
            forall|k: int| 0 <= k < before.messages@.len() ==> app.messages@[k] == before.messages@[k],
            forall|j: int|
                0 <= j < added.len() ==> {
                    let m = #[trigger] app.messages@[before.messages@.len() + j];
                    &&& m.text@ == added[j].content@
                    &&& m.sender@ == added[j].username@
                    &&& m.remote_id@ == added[j].id@
                    &&& m.is_mine == (added[j].username@ == before.username@)
                },
            *app == (App { messages: app.messages, ..before }),
        decreases n - i,
    {
        let m = &msgs[i];
        proof {
            lemma_fresh_step(ids_of(app.messages@), msgs@, i as int);
        }
        let already_have = has_remote_id(&app.messages, &m.id);
        if !already_have {
            let ghost old_msgs = app.messages@;
            app.messages.push(
                Message {
                    text: m.content.clone(),
                    sender: m.username.clone(),
                    is_mine: m.username == app.username,
                    created: Instant::now(),
                    remote_id: m.id.clone(),
                },
            );
            proof {
                assert(ids_of(app.messages@) =~= ids_of(old_msgs).push(m.id@));
                assert(response_ids(added.push(*m)) =~= response_ids(added).push(m.id@));
                assert(added.push(*m) + fresh(ids_of(app.messages@), msgs@.skip(i + 1)) =~= added
                    + (seq![*m] + fresh(ids_of(app.messages@), msgs@.skip(i + 1))));
                added = added.push(*m);
            }
            new_count += 1;
        }
        i += 1;
    }
    assert(msgs@.skip(n as int) =~= Seq::<MessageResponse>::empty());
    assert(added + Seq::<MessageResponse>::empty() =~= added);
    if n > 0 {
        app.last_seen_ts = Some(msgs[n - 1].created_at.clone());
    }
    new_count
}

/// Loads the first page of history: the messages are appended in order,
/// marked as the user's own when their sender is the user's name, stamped
/// half a second in the past so that they appear without animation, and
/// the last one's timestamp is remembered.
pub fn load_initial_history(app: &mut App, msgs: &Vec<MessageResponse>)
    ensures
        final(app).messages@.len() == old(app).messages@.len() + msgs@.len(),
        forall|i: int| 0 <= i < old(app).messages@.len() ==> final(app).messages@[i] == old(app).messages@[i],
        forall|j: int|
            0 <= j < msgs@.len() ==> {
                let m = #[trigger] final(app).messages@[old(app).messages@.len() + j];
                &&& m.text@ == msgs@[j].content@
                &&& m.sender@ == msgs@[j].username@
                &&& m.remote_id@ == msgs@[j].id@
                &&& m.is_mine == (msgs@[j].username@ == old(app).username@)
            },
        msgs@.len() > 0 ==> (final(app).last_seen_ts matches Some(t) && t@ == msgs@.last().created_at@),
        msgs@.len() == 0 ==> final(app).last_seen_ts == old(app).last_seen_ts,
        *final(app) == (App { messages: final(app).messages, last_seen_ts: final(app).last_seen_ts, ..*old(app) }),
{
    let ghost before = *app;
    let stamp = now_minus(Duration::from_millis(500));
    append_history(app, msgs, stamp);
    let ghost appended = *app;
    let n = msgs.len();
    if n > 0 {
        app.last_seen_ts = Some(msgs[n - 1].created_at.clone());
    }
    assert forall|j: int| 0 <= j < msgs@.len() implies {
        let m = #[trigger] app.messages@[before.messages@.len() + j];
        &&& m.text@ == msgs@[j].content@
        &&& m.sender@ == msgs@[j].username@
        &&& m.remote_id@ == msgs@[j].id@
        &&& m.is_mine == (msgs@[j].username@ == before.username@)
    } by {
        assert(shows(appended.messages@[before.messages@.len() + j], msgs@[j], before.username@, stamp));
    }
}

/// A key press, as the event loop tells them apart.
#[derive(Copy, Clone)]
pub enum KeyInput {
    /// Ctrl+C
    Interrupt,
    /// Ctrl+D
    EndOfInput,
    Escape,
    /// Ctrl+H or F1
    ToggleHelp,
    Enter,
    Backspace,
    Delete,
    Left,
    Right,
    Home,
    End,
    Up,
    Down,
    PageUp,
    PageDown,
    /// Ctrl+A
    LineStart,
    /// Ctrl+E
    LineEnd,
    /// Ctrl+U
    ClearLine,
    /// Ctrl+W
    DeleteWord,
    Tab,
    /// A character typed without modifier or with Shift.
    Char(char),
    /// Any other key.
    Other,
}

/// A key by its code, as the terminal reports it.
#[derive(Copy, Clone)]
pub enum KeyName {
    Char(char),
    /// A function key by its number.
    F(u8),
    Esc,
    Enter,
    Backspace,
    Delete,
    Left,
    Right,
    Home,
    End,
    Up,
    Down,
    PageUp,
    PageDown,
    Tab,
    /// Any other key.
    Other,
}

/// The modifier keys held with a key: Shift, Control, and whether any
/// other modifier (Alt, Super, Hyper, Meta) is held.
#[derive(Copy, Clone)]
pub struct KeyMods {
    pub shift: bool,
    pub control: bool,
    pub others: bool,
}

/// Which key press the event loop sees for `key` held with `mods`. The
/// Control combinations count only with Control alone, Esc only with no
/// modifier, a character only with no modifier or Shift alone; F1 and the
/// editing and arrow keys count with any modifiers.
pub open spec fn key_input_of(key: KeyName, mods: KeyMods) -> KeyInput {
    let ctrl = mods.control && !mods.shift && !mods.others;
    let plain = !mods.control && !mods.shift && !mods.others;
    let shifted = mods.shift && !mods.control && !mods.others;
    match key {
        KeyName::Char(c) => if ctrl && c == 'c' {
            KeyInput::Interrupt
        } else if ctrl && c == 'd' {
            KeyInput::EndOfInput
        } else if ctrl && c == 'h' {
            KeyInput::ToggleHelp
        } else if ctrl && c == 'a' {
            KeyInput::LineStart
        } else if ctrl && c == 'e' {
            KeyInput::LineEnd
        } else if ctrl && c == 'u' {
            KeyInput::ClearLine
        } else if ctrl && c == 'w' {
            KeyInput::DeleteWord
        } else if plain || shifted {
            KeyInput::Char(c)
        } else {
            KeyInput::Other
        },
        KeyName::F(n) => if n == 1 {
            KeyInput::ToggleHelp
        } else {
            KeyInput::Other
        },
        KeyName::Esc => if plain {
            KeyInput::Escape
        } else {
            KeyInput::Other
        },
        KeyName::Enter => KeyInput::Enter,
        KeyName::Backspace => KeyInput::Backspace,
        KeyName::Delete => KeyInput::Delete,
        KeyName::Left => KeyInput::Left,
        KeyName::Right => KeyInput::Right,
        KeyName::Home => KeyInput::Home,
        KeyName::End => KeyInput::End,
        KeyName::Up => KeyInput::Up,
        KeyName::Down => KeyInput::Down,
        KeyName::PageUp => KeyInput::PageUp,
        KeyName::PageDown => KeyInput::PageDown,
        KeyName::Tab => KeyInput::Tab,
        KeyName::Other => KeyInput::Other,
    }
}

/// The key press that `key` held with `mods` stands for.
pub fn key_input(key: KeyName, mods: KeyMods) -> (r: KeyInput)
    ensures
        r == key_input_of(key, mods),
{
    let ctrl = mods.control && !mods.shift && !mods.others;
    let plain = !mods.control && !mods.shift && !mods.others;
    let shifted = mods.shift && !mods.control && !mods.others;
    match key {
        KeyName::Char(c) => {
            if ctrl && c == 'c' {
                KeyInput::Interrupt
            } else if ctrl && c == 'd' {
                KeyInput::EndOfInput
            } else if ctrl && c == 'h' {
                KeyInput::ToggleHelp
            } else if ctrl && c == 'a' {
                KeyInput::LineStart
            } else if ctrl && c == 'e' {
                KeyInput::LineEnd
            } else if ctrl && c == 'u' {
                KeyInput::ClearLine
            } else if ctrl && c == 'w' {
                KeyInput::DeleteWord
            } else if plain || shifted {
                KeyInput::Char(c)
            } else {
                KeyInput::Other
            }
        },
        KeyName::F(n) => {
            if n == 1 {
                KeyInput::ToggleHelp
            } else {
                KeyInput::Other
            }
        },
        KeyName::Esc => {
            if plain {
                KeyInput::Escape
            } else {
                KeyInput::Other
            }
        },
        KeyName::Enter => KeyInput::Enter,
        KeyName::Backspace => KeyInput::Backspace,
        KeyName::Delete => KeyInput::Delete,
        KeyName::Left => KeyInput::Left,
        KeyName::Right => KeyInput::Right,
        KeyName::Home => KeyInput::Home,
        KeyName::End => KeyInput::End,
        KeyName::Up => KeyInput::Up,
        KeyName::Down => KeyInput::Down,
        KeyName::PageUp => KeyInput::PageUp,
        KeyName::PageDown => KeyInput::PageDown,
        KeyName::Tab => KeyInput::Tab,
        KeyName::Other => KeyInput::Other,
    }
}

/// What the event loop does after a key.
pub enum KeyOutcome {
    /// Leave the event loop.
    Quit,
    /// Draw the screen again.
    Redraw,
    /// Run the trimmed input line as a command (then call
    /// `conclude_submission`), and draw the screen again.
    Submit(String),
    /// Nothing changed.
    Idle,
}

/// `after` is `before` with an empty input line and the caret at its start.
pub open spec fn input_cleared(before: App, after: App) -> bool {
    after.input@.len() == 0 && after == (App { input: after.input, cursor: 0, ..before })
}

/// `after` is `before` with the input line `s` and the caret at `c`.
pub open spec fn input_edited(before: App, after: App, s: Seq<char>, c: int) -> bool {
    after.input@ == s && after.cursor == c && after == (App {
        input: after.input,
        cursor: after.cursor,
        ..before
    })
}

/// `after` is `before` with the caret at `c`.
pub open spec fn caret_moved(before: App, after: App, c: int) -> bool {
    after.cursor == c && after == (App { cursor: after.cursor, ..before })
}

/// `after` is `before` scrolled to `offset`.
pub open spec fn scrolled(before: App, after: App, offset: int) -> bool {
    after.scroll == offset && after == (App { scroll: after.scroll, ..before })
}

/// `x + d`, or `usize::MAX` when that would not fit.
pub open spec fn saturating_up(x: usize, d: usize) -> int {
    if x + d > usize::MAX {
        usize::MAX as int
    } else {
        x + d
    }
}

/// `x - d`, or zero when that would be negative.
pub open spec fn saturating_down(x: usize, d: usize) -> int {
    if x < d {
        0
    } else {
        x - d
    }
}

/// What a key press does to the client state and what the event loop
/// does next.
pub open spec fn key_outcome(before: App, after: App, key: KeyInput, out: KeyOutcome) -> bool {
    let s = before.input@;
    let c = before.cursor as int;
    match key {
        KeyInput::Interrupt => if s.len() > 0 {
            input_cleared(before, after) && out is Redraw
        } else {
            after == before && out is Quit
        },
        KeyInput::EndOfInput => after == before && out is Quit,
        KeyInput::Escape => input_cleared(before, after) && out is Redraw,
        KeyInput::ToggleHelp => {
            &&& after.help == toggled(before.help)
            &&& after.status@ == (if after.help == HelpState::Open {
                "Help opened"@
            } else {
                "Help closed"@
            })
            &&& after == (App {
                help: after.help,
                help_toggled_at: after.help_toggled_at,
                status: after.status,
                status_until: after.status_until,
                ..before
            })
            &&& out is Redraw
        },
        KeyInput::Enter => {
            &&& after == before
            &&& if trim_ws(s).len() > 0 {
                out matches KeyOutcome::Submit(t) && t@ == trim_ws(s)
            } else {
                out is Redraw
            }
        },
        KeyInput::Backspace => input_edited(before, after, backspaced(s, c), caret_left(c))
            && out is Redraw,
        KeyInput::Delete => input_edited(before, after, deleted_forward(s, c), c) && out is Redraw,
        KeyInput::Left => caret_moved(before, after, caret_left(c)) && out is Redraw,
        KeyInput::Right => caret_moved(before, after, caret_right(s, c)) && out is Redraw,
        KeyInput::Home | KeyInput::LineStart => caret_moved(before, after, 0) && out is Redraw,
        KeyInput::End | KeyInput::LineEnd => caret_moved(before, after, s.len() as int) && out is Redraw,
        KeyInput::Up => scrolled(before, after, saturating_up(before.scroll, 2)) && out is Redraw,
        KeyInput::Down => scrolled(before, after, saturating_down(before.scroll, 2)) && out is Redraw,
        KeyInput::PageUp => scrolled(before, after, saturating_up(before.scroll, 8)) && out is Redraw,
        KeyInput::PageDown => scrolled(before, after, saturating_down(before.scroll, 8))
            && out is Redraw,
        KeyInput::ClearLine => input_cleared(before, after) && out is Redraw,
        KeyInput::DeleteWord => input_edited(before, after, word_swept(s, c), word_start(s, c))
            && out is Redraw,
        KeyInput::Tab => input_edited(before, after, typed(typed(s, c, ' '), c + 1, ' '), c + 2)
            && out is Redraw,
        KeyInput::Char(ch) => if is_control_char(ch) {
            after == before && out is Idle
        } else {
            input_edited(before, after, typed(s, c, ch), c + 1) && out is Redraw
        },
        KeyInput::Other => after == before && out is Idle,
    }
}

/// What a key press does: editing keys change the input line and its caret,
/// arrow keys scroll, Ctrl+C clears a non-empty line and quits on an empty
/// one, Enter hands the trimmed line back for running. The caret never ends
/// up beyond the end of the line when it did not start there.
pub fn handle_key(app: &mut App, key: KeyInput) -> (out: KeyOutcome)
    requires
        key is DeleteWord ==> old(app).cursor <= old(app).input@.len(),
        (key matches KeyInput::Char(ch) && !is_control_char(ch)) ==> old(app).cursor < usize::MAX,
        key is Tab ==> old(app).cursor < usize::MAX - 1,
    ensures
        key_outcome(*old(app), *final(app), key, out),
        old(app).cursor <= old(app).input@.len() ==> final(app).cursor <= final(app).input@.len(),
{
    proof {
        lemma_skip_space_back_bounds(app.input@, app.cursor as int);
        lemma_skip_word_back_bounds(app.input@, skip_space_back(app.input@, app.cursor as int));
    }
    match key {
        KeyInput::Interrupt => {
            if !app.input.as_str().is_empty() {
                app.input = String::new();
                app.cursor = 0;
                KeyOutcome::Redraw
            } else {
                KeyOutcome::Quit
            }
        },
        KeyInput::EndOfInput => KeyOutcome::Quit,
        KeyInput::Escape | KeyInput::ClearLine => {
            app.input = String::new();
            app.cursor = 0;
            KeyOutcome::Redraw
        },
        KeyInput::ToggleHelp => {
            app.help = match app.help {
                HelpState::Closed => HelpState::Open,
                HelpState::Open => HelpState::Closed,
            };
            app.help_toggled_at = Instant::now();
            let text = if app.help_visible() {
                "Help opened".to_owned()
            } else {
                "Help closed".to_owned()
            };
            app.set_status(text, Duration::from_secs(2));
            KeyOutcome::Redraw
        },
        KeyInput::Enter => {
            let text = trim(app.input.as_str());
            if !text.as_str().is_empty() {
                KeyOutcome::Submit(text)
            } else {
                KeyOutcome::Redraw
            }
        },
        KeyInput::Backspace => {
            erase_prev(&mut app.input, &mut app.cursor);
            KeyOutcome::Redraw
        },
        KeyInput::Delete => {
            delAtCursor(&mut app.input, &mut app.cursor);
            KeyOutcome::Redraw
        },
        KeyInput::Left => {
            shift_caret_left(&mut app.cursor);
            KeyOutcome::Redraw
        },
        KeyInput::Right => {
            moveRight(app.input.as_str(), &mut app.cursor);
            KeyOutcome::Redraw
        },
        KeyInput::Home | KeyInput::LineStart => {
            jump_to_start(&mut app.cursor);
            KeyOutcome::Redraw
        },
        KeyInput::End | KeyInput::LineEnd => {
            goToEnd(app.input.as_str(), &mut app.cursor);
            KeyOutcome::Redraw
        },
        KeyInput::Up => {
            app.scroll = app.scroll.saturating_add(2);
            KeyOutcome::Redraw
        },
        KeyInput::Down => {
            app.scroll = app.scroll.saturating_sub(2);
            KeyOutcome::Redraw
        },
        KeyInput::PageUp => {
            app.scroll = app.scroll.saturating_add(8);
            KeyOutcome::Redraw
        },
        KeyInput::PageDown => {
            app.scroll = app.scroll.saturating_sub(8);
            KeyOutcome::Redraw
        },
        KeyInput::DeleteWord => {
            sweep_previous_word(&mut app.input, &mut app.cursor);
            KeyOutcome::Redraw
        },
        KeyInput::Tab => {
            insertChar(&mut app.input, &mut app.cursor, ' ');
            insertChar(&mut app.input, &mut app.cursor, ' ');
            KeyOutcome::Redraw
        },
        KeyInput::Char(ch) => {
            if !is_control(ch) {
                insertChar(&mut app.input, &mut app.cursor, ch);
                KeyOutcome::Redraw
            } else {
                KeyOutcome::Idle
            }
        },
        KeyInput::Other => KeyOutcome::Idle,
    }
}

/// After a submitted line has run: its status shows for two seconds, and
/// the input line, the caret and the scroll offset are reset.
pub fn conclude_submission(app: &mut App, status: String)
    ensures
        final(app).status == status,
        final(app).input@.len() == 0,
        *final(app) == (App {
            status: status,
            status_until: final(app).status_until,
            input: final(app).input,
            cursor: 0,
            scroll: 0,
            ..*old(app)
        }),
{
    app.set_status(status, Duration::from_secs(2));
    app.input = String::new();
    app.cursor = 0;
    app.scroll = 0;
}

/// Whether the screen is animating and should be drawn at 60fps: the newest
/// message arrived less than 300 ms ago (it is still sliding in), or the
/// help panel was opened or closed less than 160 ms ago (it is still
/// sliding). The caller reads the clock: `newest_message_age_ms` is the age
/// of the last message, if any, and `help_elapsed_ms` the time since the
/// help panel was toggled, both in whole milliseconds.
pub fn needs_animation(app: &App, newest_message_age_ms: Option<u128>, help_elapsed_ms: u128) -> (r: bool)
    ensures
        r == ((newest_message_age_ms matches Some(age) && age < 300) || help_elapsed_ms < 160),
{
    let recent_message = match newest_message_age_ms {
        Some(age) => age < 300,
        None => false,
    };
    let help_sliding = help_elapsed_ms < 160;
    let help_open_animation = app.help_visible() && help_sliding;
    let help_close_animation = !app.help_visible() && help_sliding;
    recent_message || help_open_animation || help_close_animation
}

} // verus!
