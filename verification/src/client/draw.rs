//! What the terminal drawing routines put where. The routines themselves
//! send the text to the terminal; this module computes it.
use crate::chars::{chars_of, push_all, repeat_char};
use crate::client::text::{calc_vis_width, clip_fit, clipped, enforce_clip_limit, lemma_clip_fit_width, retrieveCharW};
use crate::width::{lemma_seq_width_take_step, seq_width};
use vstd::prelude::*;

verus! {

/// A piece of text to print with its first character at (`col`, `row`).
pub struct Placement {
    pub col: u16,
    pub row: u16,
    pub text: String,
}

/// `n` dashes.
pub open spec fn dashes(n: nat) -> Seq<char> {
    Seq::new(n, |_i: int| '-')
}

/// A horizontal rule `len` columns wide: a `+` at each end, dashes between.
pub open spec fn rule_of(len: nat) -> Seq<char> {
    seq!['+'] + dashes((len - 2) as nat) + seq!['+']
}

/// `w` dashes.
pub fn _pad_horiz(w: u16) -> (r: String)
    ensures
        r@ == dashes(w as nat),
{
    repeat_char('-', w as usize)
}

/// The text of a horizontal rule `len` columns wide; none below two
/// columns.
pub fn horizontal_rule(len: u16) -> (r: Option<String>)
    ensures
        len < 2 ==> r is None,
        len >= 2 ==> (r matches Some(t) && t@ == rule_of(len as nat)),
{
    if len < 2 {
        return None;
    }
    let mut line = "+".to_owned();
    if len > 2 {
        let d = _pad_horiz(len.saturating_sub(2));
        push_all(&mut line, d.as_str());
    }
    push_all(&mut line, "+");
    proof {
        reveal_strlit("+");
        if len == 2 {
            assert(dashes(0) =~= Seq::<char>::empty());
        }
    }
    assert(line@ =~= rule_of(len as nat));
    Some(line)
}

/// Whether `p` prints `text` at (`col`, `row`).
pub open spec fn places(p: Placement, col: int, row: int, text: Seq<char>) -> bool {
    p.col == col && p.row == row && p.text@ == text
}

/// The pieces of a box frame `w` by `h` with its top left corner at
/// (`x`, `y`): the top rule, then for each inner row the left and the right
/// border, then the bottom rule. Nothing below two columns or two rows.
pub fn box_frame_cells(x: u16, y: u16, w: u16, h: u16) -> (r: Vec<Placement>)
    requires
        w >= 2 && h >= 2 ==> y + h <= u16::MAX,
        w >= 2 && h > 2 ==> x + w <= u16::MAX,
    ensures
        (w < 2 || h < 2) ==> r@.len() == 0,
        (w >= 2 && h >= 2) ==> {
            &&& r@.len() == 2 * (h - 1)
            &&& places(r@[0], x as int, y as int, rule_of(w as nat))
            &&& forall|k: int|
                1 <= k < h - 1 ==> places(#[trigger] r@[2 * k - 1], x as int, y + k, seq!['|'])
                    && places(r@[2 * k], x + w - 1, y + k, seq!['|'])
            &&& places(r@[2 * (h - 1) - 1], x as int, y + h - 1, rule_of(w as nat))
        },
{
    let mut cells: Vec<Placement> = Vec::new();
    if w < 2 || h < 2 {
        return cells;
    }
    let top = match horizontal_rule(w) {
        Some(t) => t,
        None => String::new(),
    };
    cells.push(Placement { col: x, row: y, text: top });
    let mut row: u16 = 1;
    while row < h - 1
        invariant
            2 <= w,
            2 <= h,
            h > 2 ==> x + w <= u16::MAX,
            y + h <= u16::MAX,
            1 <= row <= h - 1,
            cells@.len() == 2 * row - 1,
            places(cells@[0], x as int, y as int, rule_of(w as nat)),
            forall|k: int|
                1 <= k < row ==> places(#[trigger] cells@[2 * k - 1], x as int, y + k, seq!['|'])
                    && places(cells@[2 * k], x + w - 1, y + k, seq!['|']),
        decreases h - 1 - row,
    {
        let bar1 = "|".to_owned();
        let bar2 = "|".to_owned();
        proof {
            reveal_strlit("|");
        }
        assert(bar1@ =~= seq!['|']);
        assert(bar2@ =~= seq!['|']);
        cells.push(Placement { col: x, row: y + row, text: bar1 });
        let ghost before = cells@;
        cells.push(Placement { col: x + w - 1, row: y + row, text: bar2 });
        assert forall|k: int|
            1 <= k < row + 1 implies places(#[trigger] cells@[2 * k - 1], x as int, y + k, seq!['|'])
                && places(cells@[2 * k], x + w - 1, y + k, seq!['|']) by {
            if k < row {
                assert(cells@[2 * k - 1] == before[2 * k - 1]);
                assert(cells@[2 * k] == before[2 * k]);
            }
        }
        row += 1;
    }
    let bottom = match horizontal_rule(w) {
        Some(t) => t,
        None => String::new(),
    };
    cells.push(Placement { col: x, row: y + h - 1, text: bottom });
    cells
}

/// A text centred on a terminal line `terminal_w` columns wide: the text
/// cut to the line's width, starting half the remaining columns in.
pub fn centered_text(terminal_w: u16, content: &str) -> (r: Placement)
    ensures
        r.text@ == clipped(content@, terminal_w as nat),
        r.col == (terminal_w - seq_width(clipped(content@, terminal_w as nat))) / 2,
        r.row == 0,
{
    let safe_clip = enforce_clip_limit(content, terminal_w as usize);
    proof {
        lemma_clip_fit_width(content@, terminal_w as nat);
        assert(seq_width(Seq::<char>::empty()) == 0);
    }
    let width = calc_vis_width(safe_clip.as_str());
    let x_offset = terminal_w.saturating_sub(width as u16) / 2;
    Placement { col: x_offset, row: 0, text: safe_clip }
}

/// Where the window of an input view starts: far enough right that the
/// caret lies within the last `max` columns' worth of characters.
pub open spec fn view_start(cursor: nat, max: nat) -> nat {
    if max == 0 || cursor < max - 1 {
        0
    } else {
        (cursor - (max - 1)) as nat
    }
}

/// The characters of `val` shown in an input field `max` columns wide with
/// the caret at `cursor`.
pub open spec fn input_window(val: Seq<char>, cursor: nat, max: nat) -> Seq<char> {
    if max == 0 || view_start(cursor, max) >= val.len() {
        Seq::empty()
    } else {
        clip_fit(val.skip(view_start(cursor, max) as int), max)
    }
}

/// The column of the caret within the shown window: the width of the shown
/// characters that come before the caret.
pub open spec fn input_caret(val: Seq<char>, cursor: nat, max: nat) -> nat {
    let w = input_window(val, cursor, max);
    let before = (cursor - view_start(cursor, max)) as nat;
    seq_width(w.take(if before < w.len() { before as int } else { w.len() as int }))
}

/// The part of the input line that an input field `maxLen` columns wide
/// shows, and the column of the caret in it.
#[allow(non_snake_case)]
pub fn calc_input_view(val: &str, curr_cursor: usize, maxLen: usize) -> (r: (String, usize))
    ensures
        r.0@ == input_window(val@, curr_cursor as nat, maxLen as nat),
        r.1 == input_caret(val@, curr_cursor as nat, maxLen as nat),
{
    let char_list = chars_of(val);
    let ghost s = val@;
    if maxLen == 0 {
        assert(Seq::<char>::empty().take(0) =~= Seq::<char>::empty());
        assert(seq_width(Seq::<char>::empty()) == 0);
        return (String::new(), 0);
    }
    let start = curr_cursor.saturating_sub(maxLen.saturating_sub(1));
    let n = char_list.len();
    let mut result_buf = String::new();
    let mut accum_w: usize = 0;
    let mut vis_cursor_x: usize = 0;
    let mut i: usize = start;
    if start >= n {
        assert(Seq::<char>::empty().take(0) =~= Seq::<char>::empty());
        assert(seq_width(Seq::<char>::empty()) == 0);
        return (result_buf, 0);
    }
    let ghost tail = s.skip(start as int);
    assert(s.skip(start as int).skip(0) =~= tail);
    assert(tail.take(0) =~= Seq::<char>::empty());
    assert(seq_width(Seq::<char>::empty()) == 0);
    assert(s.skip(n as int) =~= Seq::<char>::empty());
    while i < n
        invariant
            char_list@ == s,
            n == s.len(),
            start < n,
            start <= i <= n,
            start <= curr_cursor,
            tail == s.skip(start as int),
            s.skip(n as int) == Seq::<char>::empty(),
            accum_w <= maxLen,
            result_buf@ == tail.take(i - start),
            result_buf@ + clip_fit(s.skip(i as int), (maxLen - accum_w) as nat) == clip_fit(tail, maxLen as nat),
            vis_cursor_x == seq_width(result_buf@.take(
                if curr_cursor - start < result_buf@.len() { (curr_cursor - start) as int } else { result_buf@.len() as int },
            )),
            vis_cursor_x <= accum_w,
            accum_w == seq_width(result_buf@),
        ensures
            result_buf@ == clip_fit(tail, maxLen as nat),
            vis_cursor_x == seq_width(result_buf@.take(
                if curr_cursor - start < result_buf@.len() { (curr_cursor - start) as int } else { result_buf@.len() as int },
            )),
        decreases n - i,
    {
        let ch = char_list[i];
        let cw = retrieveCharW(ch);
        assert(s.skip(i as int).drop_first() =~= s.skip(i + 1));
        assert(s.skip(i as int)[0] == ch);
        if cw > maxLen - accum_w {
            assert(result_buf@ + Seq::<char>::empty() =~= result_buf@);
            break;
        }
        let ghost prev = result_buf@;
        proof {
            assert(tail.take(i + 1 - start) =~= prev.push(ch));
            assert(prev.push(ch).take(prev.len() as int) =~= prev);
            assert(prev.take(prev.len() as int) =~= prev);
            lemma_seq_width_take_step(prev.push(ch), prev.len() as int);
            assert(prev.push(ch).take(prev.len() + 1int) =~= prev.push(ch));
            if (curr_cursor - start) as int <= prev.len() {
                assert(prev.push(ch).take((curr_cursor - start) as int) =~= prev.take(
                    (curr_cursor - start) as int,
                ));
            }
        }
        if i < curr_cursor {
            vis_cursor_x += cw;
        }
        result_buf.push(ch);
        assert(prev + (seq![ch] + clip_fit(s.skip(i + 1), (maxLen - accum_w - cw) as nat))
            =~= result_buf@ + clip_fit(s.skip(i + 1), (maxLen - accum_w - cw) as nat));
        accum_w += cw;
        i += 1;
    }
    (result_buf, vis_cursor_x)
}

} // verus!
