//! The pieces of the demo chat's screen that are computed rather than
//! drawn: the intro art, the help panel's lines, the connection defaults,
//! the layout of message bubbles and the scroll window.
use crate::chars::{chars_of, is_white_space, is_whitespace, push_all, repeat_char, string_from, trim, trim_ws, utf8_len};
use crate::client::text::lines_view;
use vstd::prelude::*;

verus! {

/// The lines of the intro art.
pub open spec fn intro_art_lines() -> Seq<&'static str> {
    seq![
        "             -@@@@@@@#      #@@@@@@@-             ",
        "           %@@@@@@@@@@@@#*@@@@@@@@@@@@%           ",
        "         .@@@@@@@%%@@@@@@@@@@@@@%@@@@@@@.         ",
        "         @@@@@%     .#@@@@@@%.     %@@@@@         ",
        "        -@@@@@        -@@@@+        @@@@@-        ",
        "   .=@@@@@@@@@         @@@@         @@@@@@@@@+.   ",
        " .@@@@@@@@@@@@.        @@@@        .@@@@@@@@@@@@. ",
        ".@@@@@@@%@@@@@@=      .@@@@:      -@@@@@@%@@@@@@@.",
        "%@@@@#      *@@@@%..-@@@@@@@@=..%@@@@#      #@@@@%",
        "@@@@@-       -@@@@@@@@@@@@@@@@@@@@@@=       -@@@@@",
        "%@@@@%        @@@@@@#.      .*@@@@@@        #@@@@%",
        ".@@@@@@       @@@@.            .@@@@       @@@@@@.",
        " .@@@@@@@-..=@@%.                .%@@+..-@@@@@@@. ",
        "   #@@@@@@@@@@:                    .@@@@@@@@@@#   ",
        "     .@@@@@@@-                      :@@@@@@@:     ",
        "       @@@@@*                        *@@@@@       ",
        "       @@@@@                          @@@@@       ",
        "       @@@@@                          @@@@@.      ",
        "       @@@@@:       .=*%@@%*=.       .@@@@@       ",
        "       +@@@@@@%%@@@@@@@@@@@@@@@@@@@%@@@@@@*       ",
        "        *@@@@@@@@@@@@@@@@@@@@@@@@@@@@@@@@*        ",
        "          -@@@@@@@@+          +@@@@@@@@-          ",
    ]
}

/// The intro art shown above the connection wizard.
pub fn intro_art() -> (r: [&'static str; 22])
    ensures
        r@ == intro_art_lines(),
{
    let art = [
        "             -@@@@@@@#      #@@@@@@@-             ",
        "           %@@@@@@@@@@@@#*@@@@@@@@@@@@%           ",
        "         .@@@@@@@%%@@@@@@@@@@@@@%@@@@@@@.         ",
        "         @@@@@%     .#@@@@@@%.     %@@@@@         ",
        "        -@@@@@        -@@@@+        @@@@@-        ",
        "   .=@@@@@@@@@         @@@@         @@@@@@@@@+.   ",
        " .@@@@@@@@@@@@.        @@@@        .@@@@@@@@@@@@. ",
        ".@@@@@@@%@@@@@@=      .@@@@:      -@@@@@@%@@@@@@@.",
        "%@@@@#      *@@@@%..-@@@@@@@@=..%@@@@#      #@@@@%",
        "@@@@@-       -@@@@@@@@@@@@@@@@@@@@@@=       -@@@@@",
        "%@@@@%        @@@@@@#.      .*@@@@@@        #@@@@%",
        ".@@@@@@       @@@@.            .@@@@       @@@@@@.",
        " .@@@@@@@-..=@@%.                .%@@+..-@@@@@@@. ",
        "   #@@@@@@@@@@:                    .@@@@@@@@@@#   ",
        "     .@@@@@@@-                      :@@@@@@@:     ",
        "       @@@@@*                        *@@@@@       ",
        "       @@@@@                          @@@@@       ",
        "       @@@@@                          @@@@@.      ",
        "       @@@@@:       .=*%@@%*=.       .@@@@@       ",
        "       +@@@@@@%%@@@@@@@@@@@@@@@@@@@%@@@@@@*       ",
        "        *@@@@@@@@@@@@@@@@@@@@@@@@@@@@@@@@*        ",
        "          -@@@@@@@@+          +@@@@@@@@-          ",
    ];
    assert(art@ =~= intro_art_lines());
    art
}

/// The lines of the help panel: a title, then one line per command.
pub open spec fn help_lines() -> Seq<&'static str> {
    seq![
        "Commands",
        "/help        toggle this panel",
        "/clear       clear messages",
        "/nick NAME   change nickname",
        "/save        save chat to file",
        "/me TEXT     action message",
        "/demo        add demo messages",
        "/top         jump to top",
        "/bottom      jump to bottom",
    ]
}

/// The lines of the help panel.
pub fn help_panel_lines() -> (r: [&'static str; 9])
    ensures
        r@ == help_lines(),
{
    let lines = [
        "Commands",
        "/help        toggle this panel",
        "/clear       clear messages",
        "/nick NAME   change nickname",
        "/save        save chat to file",
        "/me TEXT     action message",
        "/demo        add demo messages",
        "/top         jump to top",
        "/bottom      jump to bottom",
    ];
    assert(lines@ =~= help_lines());
    lines
}

/// The nickname, room and password that the connection wizard settles on:
/// the typed nickname and room trimmed, "You" and "global" where they are
/// left blank; the password as typed.
pub fn connection_defaults(nick_line: &str, room_line: &str, password: String) -> (r: (String, String, String))
    ensures
        r.0@ == (if trim_ws(nick_line@).len() == 0 { "You"@ } else { trim_ws(nick_line@) }),
        r.1@ == (if trim_ws(room_line@).len() == 0 { "global"@ } else { trim_ws(room_line@) }),
        r.2 == password,
{
    let nick = trim(nick_line);
    let nick = if nick.as_str().is_empty() {
        "You".to_owned()
    } else {
        nick
    };
    let room = trim(room_line);
    let room = if room.as_str().is_empty() {
        "global".to_owned()
    } else {
        room
    };
    (nick, room, password)
}

/// One character through the word splitter: white space ends the current
/// word (if any); any other character joins it.
pub open spec fn word_step(st: (Seq<Seq<char>>, Seq<char>), c: char) -> (Seq<Seq<char>>, Seq<char>) {
    if is_white_space(c) {
        if st.1.len() > 0 {
            (st.0.push(st.1), Seq::empty())
        } else {
            st
        }
    } else {
        (st.0, st.1.push(c))
    }
}

/// The word splitter's state after all of `s`.
pub open spec fn word_fold(s: Seq<char>) -> (Seq<Seq<char>>, Seq<char>)
    decreases s.len(),
{
    if s.len() == 0 {
        (Seq::empty(), Seq::empty())
    } else {
        word_step(word_fold(s.drop_last()), s.last())
    }
}

/// The words of `s`: its maximal runs of characters that are not white
/// space, as `str::split_whitespace` gives them.
pub open spec fn words_of(s: Seq<char>) -> Seq<Seq<char>> {
    let st = word_fold(s);
    if st.1.len() > 0 {
        st.0.push(st.1)
    } else {
        st.0
    }
}

/// The words of `text`, in order.
pub fn split_words(text: &str) -> (r: Vec<String>)
    ensures
        lines_view(r@) == words_of(text@),
{
    let ghost s = text@;
    let cs = chars_of(text);
    let n = cs.len();
    let mut words: Vec<String> = Vec::new();
    let mut cur = String::new();
    let mut i: usize = 0;
    assert(s.take(0) =~= Seq::<char>::empty());
    assert(lines_view(words@) =~= Seq::<Seq<char>>::empty());
    while i < n
        invariant
            cs@ == s,
            n == s.len(),
            i <= n,
            (lines_view(words@), cur@) == word_fold(s.take(i as int)),
        decreases n - i,
    {
        let c = cs[i];
        assert(s.take(i + 1).drop_last() =~= s.take(i as int));
        assert(s.take(i + 1).last() == c);
        if is_whitespace(c) {
            if !cur.as_str().is_empty() {
                let ghost lv = lines_view(words@);
                let ghost w = cur@;
                words.push(cur);
                assert(lines_view(words@) =~= lv.push(w));
                cur = String::new();
            }
        } else {
            cur.push(c);
        }
        i += 1;
    }
    assert(s.take(n as int) =~= s);
    if !cur.as_str().is_empty() {
        let ghost lv = lines_view(words@);
        let ghost w = cur@;
        words.push(cur);
        assert(lines_view(words@) =~= lv.push(w));
    }
    words
}

/// One word through the bubble filler: when the word (with a separating
/// space) would make a non-empty line longer than `max` bytes, the line is
/// finished first; the word then joins the current line after a space, or
/// starts it.
pub open spec fn fill_step(st: (Seq<Seq<char>>, Seq<char>), word: Seq<char>, max: nat) -> (Seq<Seq<char>>, Seq<char>) {
    let st2 = if utf8_len(st.1) + utf8_len(word) + 1 > max && st.1.len() > 0 {
        (st.0.push(st.1), Seq::<char>::empty())
    } else {
        st
    };
    (st2.0, if st2.1.len() > 0 { st2.1.push(' ') + word } else { word })
}

/// The bubble filler's state after all of `words`.
pub open spec fn fill_fold(words: Seq<Seq<char>>, max: nat) -> (Seq<Seq<char>>, Seq<char>)
    decreases words.len(),
{
    if words.len() == 0 {
        (Seq::empty(), Seq::empty())
    } else {
        fill_step(fill_fold(words.drop_last(), max), words.last(), max)
    }
}

/// The lines of a message bubble at most `max` bytes wide: the words of the
/// text, filled greedily; at least one (possibly empty) line.
pub open spec fn bubble_lines(text: Seq<char>, max: nat) -> Seq<Seq<char>> {
    let st = fill_fold(words_of(text), max);
    let ls = if st.1.len() > 0 {
        st.0.push(st.1)
    } else {
        st.0
    };
    if ls.len() == 0 {
        seq![Seq::empty()]
    } else {
        ls
    }
}

/// The number of bytes of `s`'s UTF-8 encoding.
fn byte_len(s: &String) -> (r: usize)
    ensures
        r == utf8_len(s@),
{
    s.as_str().as_bytes().len()
}

/// The lines of the bubble that shows `text` when a bubble may be at most
/// `max_bubble_w` bytes wide.
pub fn wrap_bubble_text(text: &str, max_bubble_w: usize) -> (r: Vec<String>)
    ensures
        lines_view(r@) == bubble_lines(text@, max_bubble_w as nat),
{
    let words = split_words(text);
    let ghost ws = lines_view(words@);
    let mut text_lines: Vec<String> = Vec::new();
    let mut current_line = String::new();
    let mut i: usize = 0;
    assert(ws.take(0) =~= Seq::<Seq<char>>::empty());
    assert(lines_view(text_lines@) =~= Seq::<Seq<char>>::empty());
    while i < words.len()
        invariant
            i <= words@.len(),
            ws == lines_view(words@),
            ws == words_of(text@),
            (lines_view(text_lines@), current_line@) == fill_fold(ws.take(i as int), max_bubble_w as nat),
        decreases words@.len() - i,
    {
        let word = &words[i];
        assert(ws.take(i + 1).drop_last() =~= ws.take(i as int));
        assert(ws.take(i + 1).last() == word@);
        let cur_len = byte_len(&current_line);
        let word_len = byte_len(word);
        let too_long = if word_len >= max_bubble_w {
            true
        } else {
            cur_len > max_bubble_w - word_len - 1
        };
        if too_long {
            if !current_line.as_str().is_empty() {
                let ghost lv = lines_view(text_lines@);
                let ghost cl = current_line@;
                text_lines.push(current_line);
                assert(lines_view(text_lines@) =~= lv.push(cl));
                current_line = String::new();
            }
        }
        let ghost before_word = current_line@;
        if !current_line.as_str().is_empty() {
            current_line.push(' ');
        }
        push_all(&mut current_line, word.as_str());
        assert(before_word.len() == 0 ==> current_line@ =~= word@);
        i += 1;
    }
    assert(ws.take(words@.len() as int) =~= ws);
    if !current_line.as_str().is_empty() {
        let ghost lv = lines_view(text_lines@);
        let ghost cl = current_line@;
        text_lines.push(current_line);
        assert(lines_view(text_lines@) =~= lv.push(cl));
    }
    if text_lines.len() == 0 {
        text_lines.push(String::new());
        assert(lines_view(text_lines@) =~= seq![Seq::<char>::empty()]);
    }
    text_lines
}

/// The first line of the scrolled chat shown in a viewport `viewport_h`
/// lines high over `total` lines, scrolled `scroll` lines up from the
/// bottom, and the line after the last one shown.
pub open spec fn viewport_of(total: nat, viewport_h: nat, scroll: nat) -> (nat, nat) {
    let max_scroll = if total > viewport_h { (total - viewport_h) as nat } else { 0 };
    let s = if scroll < max_scroll { scroll } else { max_scroll };
    ((max_scroll - s) as nat, (max_scroll - s + viewport_h) as nat)
}

/// The window of chat lines that a viewport `viewport_h` lines high shows
/// out of `total`, scrolled `scroll` lines up from the bottom (the scroll
/// is capped where the first line comes into view).
pub fn chat_viewport(total: usize, viewport_h: usize, scroll: usize) -> (r: (usize, usize))
    ensures
        (r.0 as nat, r.1 as nat) == viewport_of(total as nat, viewport_h as nat, scroll as nat),
{
    let max_scroll = total.saturating_sub(viewport_h);
    let s = if scroll < max_scroll {
        scroll
    } else {
        max_scroll
    };
    let view_start = max_scroll - s;
    (view_start, view_start + viewport_h)
}

/// The length in bytes of the longest of `lines`.
pub open spec fn max_byte_len(lines: Seq<Seq<char>>) -> nat
    decreases lines.len(),
{
    if lines.len() == 0 {
        0
    } else {
        let m = max_byte_len(lines.drop_last());
        let l = utf8_len(lines.last());
        if l > m {
            l
        } else {
            m
        }
    }
}

/// The width of the bubble around `lines`: the longest line (at least one
/// byte), taken as a `u16`, plus two columns of border and two of padding.
pub open spec fn bubble_width(lines: Seq<Seq<char>>) -> int {
    (if max_byte_len(lines) < 1 { 1 } else { max_byte_len(lines) }) as u16 + 4
}

/// A bubble's top or bottom edge `w` columns wide.
pub open spec fn bubble_edge(left: Seq<char>, right: Seq<char>, w: int) -> Seq<char> {
    left + Seq::new((w - 2) as nat, |_i: int| '─') + right
}

/// A bubble's row for `line` when the bubble is `w` columns wide: a border,
/// a space, the line, spaces up to the width, a border.
pub open spec fn bubble_row(line: Seq<char>, w: int) -> Seq<char> {
    let used = (utf8_len(line) as u16) + 2;
    "│ "@ + line + Seq::new(if w >= used { (w - used) as nat } else { 0 }, |_i: int| ' ') + "│"@
}

/// The rows of the bubble around `text_lines`: its top edge, one row per
/// line, its bottom edge.
pub fn bubble_rows(text_lines: &Vec<String>) -> (r: Vec<String>)
    requires
        (if max_byte_len(lines_view(text_lines@)) < 1 { 1 } else { max_byte_len(lines_view(text_lines@)) }) as u16 + 4 <= u16::MAX,
        forall|i: int| 0 <= i < text_lines@.len() ==> (utf8_len(#[trigger] text_lines@[i]@) as u16) + 2 <= u16::MAX,
    ensures
        r@.len() == text_lines@.len() + 2,
        r@[0]@ == bubble_edge("╭"@, "╮"@, bubble_width(lines_view(text_lines@))),
        forall|i: int| 0 <= i < text_lines@.len() ==> #[trigger] r@[i + 1]@ == bubble_row(
            text_lines@[i]@,
            bubble_width(lines_view(text_lines@)),
        ),
        r@[text_lines@.len() + 1int]@ == bubble_edge("╰"@, "╯"@, bubble_width(lines_view(text_lines@))),
{
    let ghost lv = lines_view(text_lines@);
    let mut longest: usize = 0;
    let mut i: usize = 0;
    assert(lv.take(0) =~= Seq::<Seq<char>>::empty());
    while i < text_lines.len()
        invariant
            i <= text_lines@.len(),
            lv == lines_view(text_lines@),
            longest == max_byte_len(lv.take(i as int)),
        decreases text_lines@.len() - i,
    {
        let l = byte_len(&text_lines[i]);
        assert(lv.take(i + 1).drop_last() =~= lv.take(i as int));
        assert(lv.take(i + 1).last() == text_lines@[i as int]@);
        if l > longest {
            longest = l;
        }
        i += 1;
    }
    assert(lv.take(text_lines@.len() as int) =~= lv);
    let widest = if longest < 1 {
        1
    } else {
        longest
    };
    let bw: u16 = (widest as u16) + 4;
    let mut rows: Vec<String> = Vec::new();
    let mut top = "╭".to_owned();
    let bar = repeat_char('─', bw.saturating_sub(2) as usize);
    push_all(&mut top, bar.as_str());
    push_all(&mut top, "╮");
    rows.push(top);
    let mut k: usize = 0;
    while k < text_lines.len()
        invariant
            k <= text_lines@.len(),
            lv == lines_view(text_lines@),
            bw as int == bubble_width(lv),
            bar@ == Seq::new((bw - 2) as nat, |_i: int| '─'),
            forall|i: int| 0 <= i < text_lines@.len() ==> (utf8_len(#[trigger] text_lines@[i]@) as u16) + 2 <= u16::MAX,
            rows@.len() == k + 1,
            rows@[0]@ == bubble_edge("╭"@, "╮"@, bubble_width(lv)),
            forall|i: int| 0 <= i < k ==> #[trigger] rows@[i + 1]@ == bubble_row(text_lines@[i]@, bubble_width(lv)),
        decreases text_lines@.len() - k,
    {
        let line = &text_lines[k];
        let used: u16 = (byte_len(line) as u16) + 2;
        let pad = repeat_char(' ', bw.saturating_sub(used) as usize);
        let mut row = "│ ".to_owned();
        push_all(&mut row, line.as_str());
        push_all(&mut row, pad.as_str());
        push_all(&mut row, "│");
        assert(row@ =~= bubble_row(text_lines@[k as int]@, bubble_width(lv)));
        rows.push(row);
        k += 1;
    }
    let mut bottom = "╰".to_owned();
    push_all(&mut bottom, bar.as_str());
    push_all(&mut bottom, "╯");
    rows.push(bottom);
    rows
}

/// The title shown under the intro art.
pub const WIZARD_SUBTITLE: &'static str = "C O N N E C T I O N   W I Z A R D";

/// Where the connection wizard puts things on a terminal `term_w` by
/// `term_h`.
pub struct WizardLayout {
    /// The row of the first art line; the others follow one per row.
    pub art_top: u16,
    /// The column of each art line.
    pub art_cols: Vec<u16>,
    /// The column and row of the subtitle.
    pub subtitle_col: u16,
    pub subtitle_row: u16,
    /// The column of the prompts, and the row of the first prompt; the
    /// others follow one per row.
    pub prompt_col: u16,
    pub prompt_row: u16,
}

/// `x - y`, or zero when that would be negative.
pub open spec fn sat_sub(x: int, y: int) -> int {
    if x < y {
        0
    } else {
        x - y
    }
}

/// The connection wizard's layout: the art block (with eight rows more for
/// the subtitle and the prompts) centred vertically, each art line and the
/// subtitle centred horizontally, the prompts in a 20-column block in the
/// middle.
pub fn wizard_layout(term_w: u16, term_h: u16) -> (r: WizardLayout)
    ensures
        r.art_top == sat_sub(term_h as int, 30) / 2,
        r.art_cols@.len() == 22,
        forall|i: int| 0 <= i < 22 ==> #[trigger] r.art_cols@[i] == sat_sub(term_w as int, utf8_len(intro_art_lines()[i]@) as int) / 2,
        r.subtitle_col == sat_sub(term_w as int, utf8_len(WIZARD_SUBTITLE@) as int) / 2,
        r.subtitle_row == r.art_top + 24,
        r.prompt_col == sat_sub(term_w as int, 20) / 2,
        r.prompt_row == r.art_top + 26,
{
    let art = intro_art();
    let start_y = term_h.saturating_sub(30) / 2;
    let mut cols: Vec<u16> = Vec::new();
    let mut i: usize = 0;
    while i < 22
        invariant
            i <= 22,
            art@ == intro_art_lines(),
            cols@.len() == i,
            forall|k: int| 0 <= k < i ==> #[trigger] cols@[k] == sat_sub(term_w as int, utf8_len(intro_art_lines()[k]@) as int) / 2,
        decreases 22 - i,
    {
        let len = art[i].as_bytes().len();
        let col = if len > term_w as usize {
            0
        } else {
            (term_w - len as u16) / 2
        };
        cols.push(col);
        i += 1;
    }
    let sub_len = WIZARD_SUBTITLE.as_bytes().len();
    let subtitle_col = if sub_len > term_w as usize {
        0
    } else {
        (term_w - sub_len as u16) / 2
    };
    WizardLayout {
        art_top: start_y,
        art_cols: cols,
        subtitle_col,
        subtitle_row: start_y + 24,
        prompt_col: term_w.saturating_sub(20) / 2,
        prompt_row: start_y + 26,
    }
}

/// A key pressed while the password is typed.
pub enum MaskedKey {
    Enter,
    Char(char),
    Backspace,
    Other,
}

/// What the masked entry shows for a key.
pub enum MaskedEcho {
    /// The entry is finished: start a new line.
    Done,
    /// A character was taken: show a star.
    Star,
    /// A character was taken back: erase the last star.
    Erase,
    /// Nothing to show.
    Nothing,
}

/// One key of the masked password entry: Enter finishes it, a character
/// joins the password, backspace takes the last character back.
pub fn masked_entry_step(buf: &mut String, key: MaskedKey) -> (r: MaskedEcho)
    ensures
        key is Enter ==> final(buf)@ == old(buf)@ && r is Done,
        (key matches MaskedKey::Char(c) && final(buf)@ == old(buf)@.push(c) && r is Star) || !(key is Char),
        key is Backspace && old(buf)@.len() > 0 ==> final(buf)@ == old(buf)@.drop_last() && r is Erase,
        key is Backspace && old(buf)@.len() == 0 ==> final(buf)@ == old(buf)@ && r is Nothing,
        key is Other ==> final(buf)@ == old(buf)@ && r is Nothing,
{
    match key {
        MaskedKey::Enter => MaskedEcho::Done,
        MaskedKey::Char(c) => {
            buf.push(c);
            MaskedEcho::Star
        },
        MaskedKey::Backspace => {
            let cs = chars_of(buf.as_str());
            if cs.len() > 0 {
                *buf = string_from(&cs, 0, cs.len() - 1);
                assert(buf@ =~= cs@.drop_last());
                MaskedEcho::Erase
            } else {
                MaskedEcho::Nothing
            }
        },
        MaskedKey::Other => MaskedEcho::Nothing,
    }
}

/// Where the terminal cursor goes in the input box whose area starts at
/// (`area_x`, `area_y`) and is `area_w` wide: four columns in (border and
/// prompt), plus the caret, but not past the box's inner width.
pub fn input_cursor_position(area_x: u16, area_y: u16, area_w: u16, cursor: usize) -> (r: (u16, u16))
    requires
        area_x + 4 + (if (cursor as u16) < sat_sub(area_w as int, 6) { cursor as u16 as int } else { sat_sub(area_w as int, 6) }) <= u16::MAX,
        area_y + 1 <= u16::MAX,
    ensures
        r.0 == area_x + 4 + (if (cursor as u16) < sat_sub(area_w as int, 6) { cursor as u16 as int } else { sat_sub(area_w as int, 6) }),
        r.1 == area_y + 1,
{
    let offset = cursor as u16;
    let limit = area_w.saturating_sub(6);
    let shift = if offset < limit {
        offset
    } else {
        limit
    };
    (area_x + 4 + shift, area_y + 1)
}

/// The area of the help panel over the chat area at (`chat_x`, `chat_y`),
/// `chat_w` by `chat_h`, when `visible_h` of its rows show: at most 30
/// columns (and four fewer than the chat), centred, resting on the chat
/// area's bottom edge.
pub fn help_modal_area(chat_x: u16, chat_y: u16, chat_w: u16, chat_h: u16, visible_h: u16) -> (r: (u16, u16, u16, u16))
    requires
        chat_x + sat_sub(
            chat_w as int,
            if sat_sub(chat_w as int, 4) < 30 { sat_sub(chat_w as int, 4) } else { 30 },
        ) / 2 <= u16::MAX,
        chat_y + sat_sub(chat_h as int, visible_h as int) <= u16::MAX,
    ensures
        r.2 == (if sat_sub(chat_w as int, 4) < 30 { sat_sub(chat_w as int, 4) } else { 30 }),
        r.0 == chat_x + sat_sub(chat_w as int, r.2 as int) / 2,
        r.1 == chat_y + sat_sub(chat_h as int, visible_h as int),
        r.3 == visible_h,
{
    let avail = chat_w.saturating_sub(4);
    let modal_width: u16 = if avail < 30 {
        avail
    } else {
        30
    };
    (chat_x + chat_w.saturating_sub(modal_width) / 2, chat_y + chat_h.saturating_sub(visible_h), modal_width, visible_h)
}

/// Where a row of a message bubble starts and how wide its area is: a
/// bubble of the other side starts at the slide offset; one of the user's
/// own is pushed right so that it ends at the area's right edge (counting
/// its characters), then shifted by the slide offset.
pub fn bubble_line_x(right_aligned: bool, inner_x: u16, inner_w: u16, line_chars: usize, slide: u16) -> (r: (u16, u16))
    requires
        inner_x + (if right_aligned {
            if sat_sub(inner_w as int, line_chars as u16 as int) + slide > u16::MAX { u16::MAX as int } else { sat_sub(inner_w as int, line_chars as u16 as int) + slide }
        } else {
            slide as int
        }) <= u16::MAX,
    ensures
        ({
            let x_slide = if right_aligned {
                if sat_sub(inner_w as int, line_chars as u16 as int) + slide > u16::MAX { u16::MAX as int } else { sat_sub(inner_w as int, line_chars as u16 as int) + slide }
            } else {
                slide as int
            };
            r.0 == inner_x + x_slide && r.1 == sat_sub(inner_w as int, x_slide)
        }),
{
    let x_slide = if right_aligned {
        let pad = inner_w.saturating_sub(line_chars as u16);
        pad.saturating_add(slide)
    } else {
        slide
    };
    (inner_x + x_slide, inner_w.saturating_sub(x_slide))
}

} // verus!
