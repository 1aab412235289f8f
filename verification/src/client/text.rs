//! Measuring, clipping, padding and wrapping text for the terminal.
use crate::chars::{char_utf8_len, chars_of, lemma_utf8_len_take_le, lemma_utf8_len_take_step, push_all, repeat_char, utf8_len};
use crate::width::{cell_width, lemma_seq_width_concat, seq_width, unicode_width_of_char, unicode_width_of_str};
use vstd::prelude::*;

pub use calc_vis_width as visible_width;
pub use injectPadding as pad_to_width;
pub use chunk_text_by_bounds as wrap_text;
pub use retrieveCharW as char_width;
pub use enforce_clip_limit as truncate_to_width;

verus! {

/// The longest prefix of `s` whose width fits in `limit` columns, found
/// character by character: it stops at the first character that no longer
/// fits.
pub open spec fn clip_fit(s: Seq<char>, limit: nat) -> Seq<char>
    decreases s.len(),
{
    if s.len() == 0 || cell_width(s[0]) > limit {
        Seq::empty()
    } else {
        seq![s[0]] + clip_fit(s.drop_first(), (limit - cell_width(s[0])) as nat)
    }
}

/// `s` cut to at most `limit` columns; nothing at all for a limit of zero.
pub open spec fn clipped(s: Seq<char>, limit: nat) -> Seq<char> {
    if limit == 0 {
        Seq::empty()
    } else {
        clip_fit(s, limit)
    }
}

/// `s` brought to exactly `target` columns where it is narrower (by spaces
/// at its end) and cut to `target` columns where it is not.
pub open spec fn padded(s: Seq<char>, target: nat) -> Seq<char> {
    if seq_width(s) >= target {
        clipped(s, target)
    } else {
        s + Seq::new((target - seq_width(s)) as nat, |_i: int| ' ')
    }
}

/// The state of the line wrapper: the finished lines, the line being
/// filled, and the width of that line.
pub type WrapState = (Seq<Seq<char>>, Seq<char>, nat);

/// One character through the line wrapper: a newline ends the current line;
/// a character that would make a non-empty line wider than `max` starts a
/// new line; any other character joins the current line.
pub open spec fn wrap_step(st: WrapState, c: char, max: nat) -> WrapState {
    if c == '\n' {
        (st.0.push(st.1), Seq::empty(), 0)
    } else if st.2 + cell_width(c) > max && st.1.len() > 0 {
        (st.0.push(st.1), seq![c], cell_width(c))
    } else {
        (st.0, st.1.push(c), st.2 + cell_width(c))
    }
}

/// The line wrapper's state after all of `s`.
pub open spec fn wrap_fold(s: Seq<char>, max: nat) -> WrapState
    decreases s.len(),
{
    if s.len() == 0 {
        (Seq::empty(), Seq::empty(), 0)
    } else {
        wrap_step(wrap_fold(s.drop_last(), max), s.last(), max)
    }
}

/// The lines that `s` wraps into at `max` columns. The last line is kept
/// when it is not empty or when it is the only line; a width of zero gives
/// one empty line.
pub open spec fn wrapped(s: Seq<char>, max: nat) -> Seq<Seq<char>> {
    if max == 0 {
        seq![Seq::empty()]
    } else {
        let st = wrap_fold(s, max);
        if st.1.len() > 0 || st.0.len() == 0 {
            st.0.push(st.1)
        } else {
            st.0
        }
    }
}

/// The characters of each string in `v`.
pub open spec fn lines_view(v: Seq<String>) -> Seq<Seq<char>> {
    v.map_values(|l: String| l@)
}

/// The display width of `txtData` in terminal columns.
#[allow(non_snake_case)]
pub fn calc_vis_width(txtData: &str) -> (r: usize)
    ensures
        r == seq_width(txtData@),
{
    unicode_width_of_str(txtData)
}

/// The display width of one character; a control character counts as zero.
#[allow(non_snake_case)]
pub fn retrieveCharW(character: char) -> (r: usize)
    ensures
        r == cell_width(character),
        r <= 2,
        0x20 <= (character as u32) && (character as u32) < 0x7F ==> r == 1,
{
    match unicode_width_of_char(character) {
        Some(w) => w,
        None => 0,
    }
}

/// The number of characters in `payload`.
pub fn count_all_chars(payload: &str) -> (r: usize)
    ensures
        r == payload@.len(),
{
    chars_of(payload).len()
}

/// The byte offset at which character `charIdx` of `valstr` starts; the
/// length of `valstr` in bytes when `charIdx` is at or past its end.
#[allow(non_snake_case)]
pub fn byte_pos_of_char(valstr: &str, charIdx: usize) -> (r: usize)
    ensures
        r == utf8_len(valstr@.take(if charIdx < valstr@.len() { charIdx as int } else { valstr@.len() as int })),
{
    let ghost s = valstr@;
    if charIdx == 0 {
        assert(s.take(0) =~= Seq::<char>::empty());
        return 0;
    }
    let total = valstr.as_bytes().len();
    assert(s.take(s.len() as int) =~= s);
    let cs = chars_of(valstr);
    let n = cs.len();
    let mut k: usize = 0;
    let mut acc: usize = 0;
    assert(s.take(0) =~= Seq::<char>::empty());
    while k < n
        invariant
            cs@ == s,
            valstr@ == s,
            n == s.len(),
            k <= n,
            total == utf8_len(s),
            acc == utf8_len(s.take(k as int)),
            k <= charIdx,
        decreases n - k,
    {
        if k == charIdx {
            return acc;
        }
        proof {
            lemma_utf8_len_take_step(s, k as int);
            lemma_utf8_len_take_le(s, k + 1);
        }
        acc = acc + char_utf8_len(cs[k]);
        k += 1;
    }
    total
}

proof fn lemma_clip_fit_step(s: Seq<char>, i: int, limit: nat)
    requires
        0 <= i < s.len(),
    ensures
        clip_fit(s.skip(i), limit) == (if cell_width(s[i]) > limit {
            Seq::<char>::empty()
        } else {
            seq![s[i]] + clip_fit(s.skip(i + 1), (limit - cell_width(s[i])) as nat)
        }),
{
    assert(s.skip(i).drop_first() =~= s.skip(i + 1));
    assert(s.skip(i)[0] == s[i]);
}

/// Cuts `raw_s` to its longest prefix that fits in `limit_w` columns,
/// stopping at the first character that does not fit.
#[allow(non_snake_case)]
pub fn enforce_clip_limit(raw_s: &str, limit_w: usize) -> (r: String)
    ensures
        r@ == clipped(raw_s@, limit_w as nat),
{
    if limit_w == 0 {
        return String::new();
    }
    let ghost s = raw_s@;
    let cs = chars_of(raw_s);
    let n = cs.len();
    let mut finalOutput = String::new();
    let mut w_accum: usize = 0;
    let mut i: usize = 0;
    assert(s.skip(0) =~= s);
    assert(s.skip(n as int) =~= Seq::<char>::empty());
    while i < n
        invariant
            cs@ == s,
            n == s.len(),
            i <= n,
            w_accum <= limit_w,
            s.skip(n as int) == Seq::<char>::empty(),
            finalOutput@ + clip_fit(s.skip(i as int), (limit_w - w_accum) as nat) == clip_fit(
                s,
                limit_w as nat,
            ),
        ensures
            finalOutput@ == clip_fit(s, limit_w as nat),
        decreases n - i,
    {
        let ch = cs[i];
        let symbol_len = retrieveCharW(ch);
        proof {
            lemma_clip_fit_step(s, i as int, (limit_w - w_accum) as nat);
        }
        if symbol_len > limit_w - w_accum {
            assert(finalOutput@ + Seq::<char>::empty() =~= finalOutput@);
            break;
        }
        let ghost before = finalOutput@;
        finalOutput.push(ch);
        assert(before + (seq![ch] + clip_fit(s.skip(i + 1), (limit_w - w_accum - symbol_len) as nat))
            =~= finalOutput@ + clip_fit(s.skip(i + 1), (limit_w - w_accum - symbol_len) as nat));
        w_accum += symbol_len;
        i += 1;
    }
    finalOutput
}

/// Brings `src` to exactly `targetBounds` columns: spaces are appended where
/// it is narrower, and it is cut where it is as wide or wider.
#[allow(non_snake_case)]
pub fn injectPadding(src: &str, targetBounds: usize) -> (r: String)
    ensures
        r@ == padded(src@, targetBounds as nat),
        seq_width(r@) <= targetBounds,
        seq_width(src@) <= targetBounds ==> seq_width(r@) == targetBounds,
{
    let curr_vis = calc_vis_width(src);
    if curr_vis >= targetBounds {
        proof {
            lemma_clip_fit_width(src@, targetBounds as nat);
            if curr_vis == targetBounds {
                lemma_clip_fit_whole(src@, targetBounds as nat);
            }
            assert(seq_width(Seq::<char>::empty()) == 0);
        }
        return enforce_clip_limit(src, targetBounds);
    }
    let mut extended = src.to_owned();
    let spaces = repeat_char(' ', targetBounds - curr_vis);
    // The padding is measured in columns: a space is one column wide.
    let space_w = retrieveCharW(' ');
    proof {
        assert(space_w == 1);
        lemma_blank_width(spaces@);
        lemma_seq_width_concat(src@, spaces@);
    }
    push_all(&mut extended, spaces.as_str());
    extended
}

/// A text that fits in the limit is kept whole by clipping.
pub proof fn lemma_clip_fit_whole(s: Seq<char>, limit: nat)
    requires
        seq_width(s) <= limit,
    ensures
        clip_fit(s, limit) == s,
    decreases s.len(),
{
    if s.len() > 0 {
        lemma_clip_fit_whole(s.drop_first(), (limit - cell_width(s[0])) as nat);
        assert(seq![s[0]] + s.drop_first() =~= s);
    }
}

/// A run of spaces is as wide as it is long.
proof fn lemma_blank_width(s: Seq<char>)
    requires
        cell_width(' ') == 1,
        forall|i: int| 0 <= i < s.len() ==> s[i] == ' ',
    ensures
        seq_width(s) == s.len(),
    decreases s.len(),
{
    if s.len() > 0 {
        lemma_blank_width(s.drop_first());
    }
}

/// Wraps `body` into lines of at most `max_width_limit` columns: newlines
/// end lines, and a character that would overflow a non-empty line starts a
/// new one. A character wider than the limit stands alone on its line.
pub fn chunk_text_by_bounds(body: &str, max_width_limit: usize) -> (r: Vec<String>)
    ensures
        lines_view(r@) == wrapped(body@, max_width_limit as nat),
{
    if max_width_limit == 0 {
        let mut one: Vec<String> = Vec::new();
        one.push(String::new());
        assert(lines_view(one@) =~= seq![Seq::<char>::empty()]);
        return one;
    }
    let ghost s = body@;
    let cs = chars_of(body);
    let n = cs.len();
    let mut lines_arr: Vec<String> = Vec::new();
    let mut activeLine = String::new();
    let mut current_line_width: usize = 0;
    let mut i: usize = 0;
    assert(s.take(0) =~= Seq::<char>::empty());
    assert(lines_view(lines_arr@) =~= Seq::<Seq<char>>::empty());
    while i < n
        invariant
            cs@ == s,
            n == s.len(),
            i <= n,
            max_width_limit > 0,
            (lines_view(lines_arr@), activeLine@, current_line_width as nat) == wrap_fold(
                s.take(i as int),
                max_width_limit as nat,
            ),
            current_line_width <= max_width_limit || current_line_width <= 2,
            activeLine@.len() == 0 ==> current_line_width == 0,
        decreases n - i,
    {
        let c = cs[i];
        assert(s.take(i + 1).drop_last() =~= s.take(i as int));
        assert(s.take(i + 1).last() == c);
        if c == '\n' {
            let ghost lv = lines_view(lines_arr@);
            let ghost cur = activeLine@;
            lines_arr.push(activeLine);
            assert(lines_view(lines_arr@) =~= lv.push(cur));
            activeLine = String::new();
            current_line_width = 0;
            i += 1;
            continue;
        }
        let c_len = retrieveCharW(c);
        if (current_line_width > max_width_limit || c_len > max_width_limit - current_line_width)
            && !activeLine.as_str().is_empty() {
            let ghost lv = lines_view(lines_arr@);
            let ghost cur = activeLine@;
            lines_arr.push(activeLine);
            assert(lines_view(lines_arr@) =~= lv.push(cur));
            activeLine = String::new();
            current_line_width = 0;
            activeLine.push(c);
            assert(activeLine@ =~= seq![c]);
            current_line_width = c_len;
        } else {
            activeLine.push(c);
            current_line_width = current_line_width + c_len;
        }
        i += 1;
    }
    assert(s.take(n as int) =~= s);
    if !activeLine.as_str().is_empty() || lines_arr.len() == 0 {
        let ghost lv = lines_view(lines_arr@);
        let ghost cur = activeLine@;
        lines_arr.push(activeLine);
        assert(lines_view(lines_arr@) =~= lv.push(cur));
    }
    lines_arr
}

/// A clipped text fits in its limit.
pub proof fn lemma_clip_fit_width(s: Seq<char>, limit: nat)
    ensures
        seq_width(clip_fit(s, limit)) <= limit,
        clip_fit(s, limit).len() <= s.len(),
        clip_fit(s, limit) == s.take(clip_fit(s, limit).len() as int),
    decreases s.len(),
{
    if s.len() == 0 || cell_width(s[0]) > limit {
        assert(s.take(0) =~= Seq::<char>::empty());
    } else {
        let rest = clip_fit(s.drop_first(), (limit - cell_width(s[0])) as nat);
        lemma_clip_fit_width(s.drop_first(), (limit - cell_width(s[0])) as nat);
        lemma_seq_width_concat(seq![s[0]], rest);
        assert(seq![s[0]].drop_first() =~= Seq::<char>::empty());
        assert(seq_width(Seq::<char>::empty()) == 0);
        assert(seq![s[0]] + rest =~= s.take(rest.len() + 1int));
    }
}

} // verus!
