//! Measuring text for the demo chat.
use crate::chars::utf8_len;
use crate::client::text::{byte_pos_of_char, calc_vis_width, count_all_chars, retrieveCharW};
use crate::width::{cell_width, seq_width};
use vstd::prelude::*;

verus! {

/// The display width of `s` in terminal columns.
pub fn visible_width(s: &str) -> (r: usize)
    ensures
        r == seq_width(s@),
{
    calc_vis_width(s)
}

/// The display width of `c`; a control character counts as zero.
pub fn char_width(c: char) -> (r: usize)
    ensures
        r == cell_width(c),
        r <= 2,
{
    retrieveCharW(c)
}

/// The number of characters in `s`.
pub fn char_count(s: &str) -> (r: usize)
    ensures
        r == s@.len(),
{
    count_all_chars(s)
}

/// The byte offset at which character `char_idx` of `s` starts; the length
/// of `s` in bytes when `char_idx` is at or past its end.
pub fn byte_index_at_char(s: &str, char_idx: usize) -> (r: usize)
    ensures
        r == utf8_len(s@.take(if char_idx < s@.len() { char_idx as int } else { s@.len() as int })),
{
    byte_pos_of_char(s, char_idx)
}

} // verus!
