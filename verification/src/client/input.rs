//! The line editor: the input buffer is a sequence of characters and the
//! caret is a character index into it.
use crate::chars::{chars_of, is_white_space, is_whitespace, push_all, string_from};
use vstd::prelude::*;

verus! {

/// The position at which an edit at caret `pos` takes place: the caret,
/// or the end of the buffer when the caret lies beyond it.
pub open spec fn edit_point(s: Seq<char>, pos: int) -> int {
    if pos < s.len() {
        pos
    } else {
        s.len() as int
    }
}

/// The buffer after typing `c` with the caret at `pos`.
pub open spec fn typed(s: Seq<char>, pos: int, c: char) -> Seq<char> {
    s.insert(edit_point(s, pos), c)
}

/// The buffer after a backspace with the caret at `pos`: the character just
/// before the caret goes, when there is one.
pub open spec fn backspaced(s: Seq<char>, pos: int) -> Seq<char> {
    if 0 < pos <= s.len() {
        s.remove(pos - 1)
    } else {
        s
    }
}

/// The caret after a backspace: one step left, never below zero.
pub open spec fn caret_left(pos: int) -> int {
    if pos == 0 {
        0
    } else {
        pos - 1
    }
}

/// The buffer after a forward delete with the caret at `pos`: the character
/// under the caret goes, when there is one.
pub open spec fn deleted_forward(s: Seq<char>, pos: int) -> Seq<char> {
    if 0 <= pos < s.len() {
        s.remove(pos)
    } else {
        s
    }
}

/// The caret after a step right: one further, but not past the end.
pub open spec fn caret_right(s: Seq<char>, pos: int) -> int {
    if pos < s.len() {
        pos + 1
    } else {
        pos
    }
}

/// Walks left from `i` over white space.
pub open spec fn skip_space_back(s: Seq<char>, i: int) -> int
    decreases i,
{
    if 0 < i && is_white_space(s[i - 1]) {
        skip_space_back(s, i - 1)
    } else {
        i
    }
}

/// Walks left from `i` over characters that are not white space.
pub open spec fn skip_word_back(s: Seq<char>, i: int) -> int
    decreases i,
{
    if 0 < i && !is_white_space(s[i - 1]) {
        skip_word_back(s, i - 1)
    } else {
        i
    }
}

/// Where the word before caret `i` starts: first the white space just before
/// the caret is passed over, then the word before it.
pub open spec fn word_start(s: Seq<char>, i: int) -> int {
    skip_word_back(s, skip_space_back(s, i))
}

/// The buffer once the word before caret `i` (and the white space after
/// that word) is removed.
pub open spec fn word_swept(s: Seq<char>, i: int) -> Seq<char> {
    s.take(word_start(s, i)) + s.skip(i)
}

pub proof fn lemma_skip_space_back_bounds(s: Seq<char>, i: int)
    requires
        0 <= i,
    ensures
        0 <= skip_space_back(s, i) <= i,
    decreases i,
{
    if 0 < i && is_white_space(s[i - 1]) {
        lemma_skip_space_back_bounds(s, i - 1);
    }
}

pub proof fn lemma_skip_word_back_bounds(s: Seq<char>, i: int)
    requires
        0 <= i,
    ensures
        0 <= skip_word_back(s, i) <= i,
    decreases i,
{
    if 0 < i && !is_white_space(s[i - 1]) {
        lemma_skip_word_back_bounds(s, i - 1);
    }
}

/// A buffer whose characters are those of `cs[0..a]` followed by `cs[b..]`.
fn splice_out(cs: &Vec<char>, a: usize, b: usize) -> (r: String)
    requires
        a <= b <= cs@.len(),
    ensures
        r@ == cs@.take(a as int) + cs@.skip(b as int),
{
    let mut r = string_from(cs, 0, a);
    let tail = string_from(cs, b, cs.len());
    push_all(&mut r, tail.as_str());
    assert(cs@.subrange(0, a as int) =~= cs@.take(a as int));
    assert(cs@.subrange(b as int, cs@.len() as int) =~= cs@.skip(b as int));
    r
}

/// Inserts `newCh` into the buffer at the caret (at the end when the caret
/// lies beyond it) and moves the caret one step right.
#[allow(non_snake_case)]
pub fn insertChar(buffer_string: &mut String, pos: &mut usize, newCh: char)
    requires
        *old(pos) < usize::MAX,
    ensures
        final(buffer_string)@ == typed(old(buffer_string)@, *old(pos) as int, newCh),
        *final(pos) == *old(pos) + 1,
{
    let cs = chars_of(buffer_string.as_str());
    let n = cs.len();
    let at = if *pos < n {
        *pos
    } else {
        n
    };
    let mut out = string_from(&cs, 0, at);
    out.push(newCh);
    let tail = string_from(&cs, at, n);
    push_all(&mut out, tail.as_str());
    assert(out@ =~= cs@.insert(at as int, newCh));
    *buffer_string = out;
    *pos = *pos + 1;
}

/// Backspace: removes the character just before the caret, if any, and
/// moves the caret one step left. With the caret at zero nothing changes.
#[allow(non_snake_case)]
pub fn erase_prev(buf: &mut String, caretPtr: &mut usize)
    ensures
        final(buf)@ == backspaced(old(buf)@, *old(caretPtr) as int),
        *final(caretPtr) as int == caret_left(*old(caretPtr) as int),
{
    if *caretPtr == 0 {
        return;
    }
    let cs = chars_of(buf.as_str());
    let n = cs.len();
    let c = *caretPtr;
    if c - 1 < n {
        let out = splice_out(&cs, c - 1, c);
        assert(out@ =~= cs@.remove(c - 1));
        *buf = out;
    }
    *caretPtr = c - 1;
}

/// Delete: removes the character under the caret, if any. The caret stays.
#[allow(non_snake_case)]
pub fn delAtCursor(dataStr: &mut String, cur_pos: &mut usize)
    ensures
        final(dataStr)@ == deleted_forward(old(dataStr)@, *old(cur_pos) as int),
        *final(cur_pos) == *old(cur_pos),
{
    let cs = chars_of(dataStr.as_str());
    let n = cs.len();
    if *cur_pos >= n {
        return;
    }
    let c = *cur_pos;
    let out = splice_out(&cs, c, c + 1);
    assert(out@ =~= cs@.remove(c as int));
    *dataStr = out;
}

/// Moves the caret one step left, stopping at zero.
pub fn shift_caret_left(c_idx: &mut usize)
    ensures
        *final(c_idx) as int == caret_left(*old(c_idx) as int),
{
    *c_idx = c_idx.saturating_sub(1);
}

/// Moves the caret one step right, stopping at the end of the buffer.
#[allow(non_snake_case)]
pub fn moveRight(content_val: &str, idx_cursor: &mut usize)
    ensures
        *final(idx_cursor) as int == caret_right(content_val@, *old(idx_cursor) as int),
{
    let n = chars_of(content_val).len();
    if *idx_cursor < n {
        *idx_cursor += 1;
    }
}

/// Moves the caret to the start of the buffer.
pub fn jump_to_start(ptr: &mut usize)
    ensures
        *final(ptr) == 0,
{
    *ptr = 0;
}

/// Moves the caret to the end of the buffer.
#[allow(non_snake_case)]
pub fn goToEnd(b: &str, p: &mut usize)
    ensures
        *final(p) == b@.len(),
{
    *p = chars_of(b).len();
}

/// Removes the word before the caret together with the white space between
/// it and the caret, and puts the caret where the word began.
#[allow(non_snake_case)]
pub fn sweep_previous_word(rawStr: &mut String, indexRef: &mut usize)
    requires
        *old(indexRef) <= old(rawStr)@.len(),
    ensures
        final(rawStr)@ == word_swept(old(rawStr)@, *old(indexRef) as int),
        *final(indexRef) as int == word_start(old(rawStr)@, *old(indexRef) as int),
{
    let ghost s = rawStr@;
    let i = *indexRef;
    if i == 0 {
        assert(s.take(0) + s.skip(0) =~= s);
        return;
    }
    let charArr = chars_of(rawStr.as_str());
    let mut tempPos = i;
    while tempPos > 0 && is_whitespace(charArr[tempPos - 1])
        invariant
            charArr@ == s,
            i <= s.len(),
            tempPos <= i,
            skip_space_back(s, i as int) == skip_space_back(s, tempPos as int),
        decreases tempPos,
    {
        tempPos -= 1;
    }
    let ghost after_space = tempPos;
    while tempPos > 0 && !is_whitespace(charArr[tempPos - 1])
        invariant
            charArr@ == s,
            i <= s.len(),
            tempPos <= i,
            skip_space_back(s, i as int) == after_space,
            skip_word_back(s, after_space as int) == skip_word_back(s, tempPos as int),
        decreases tempPos,
    {
        tempPos -= 1;
    }
    let out = splice_out(&charArr, tempPos, i);
    *rawStr = out;
    *indexRef = tempPos;
}

} // verus!
