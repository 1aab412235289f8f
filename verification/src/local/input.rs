//! The demo chat's line editor; it edits like the client's.
use crate::client::input::{backspaced, caret_left, deleted_forward, delAtCursor, erase_prev, insertChar, typed};
use vstd::prelude::*;

verus! {

/// Inserts `ch` at the caret (at the end when the caret lies beyond it) and
/// moves the caret one step right.
pub fn insert_char_at_cursor(buf: &mut String, cursor: &mut usize, ch: char)
    requires
        *old(cursor) < usize::MAX,
    ensures
        final(buf)@ == typed(old(buf)@, *old(cursor) as int, ch),
        *final(cursor) == *old(cursor) + 1,
{
    insertChar(buf, cursor, ch);
}

/// Backspace: removes the character before the caret, if any, and moves
/// the caret one step left.
pub fn delete_before_cursor(buf: &mut String, cursor: &mut usize)
    ensures
        final(buf)@ == backspaced(old(buf)@, *old(cursor) as int),
        *final(cursor) as int == caret_left(*old(cursor) as int),
{
    erase_prev(buf, cursor);
}

/// Delete: removes the character under the caret, if any.
pub fn delete_at_cursor(buf: &mut String, cursor: &mut usize)
    ensures
        final(buf)@ == deleted_forward(old(buf)@, *old(cursor) as int),
        *final(cursor) == *old(cursor),
{
    delAtCursor(buf, cursor);
}

} // verus!
