//! What the demo chat's input field shows.
use crate::client::draw::{calc_input_view, input_caret, input_window};
use vstd::prelude::*;

verus! {

/// The part of the input line that an input field `max_w` columns wide
/// shows, and the column of the caret in it.
pub fn input_view(input: &str, cursor: usize, max_w: usize) -> (r: (String, usize))
    ensures
        r.0@ == input_window(input@, cursor as nat, max_w as nat),
        r.1 == input_caret(input@, cursor as nat, max_w as nat),
{
    calc_input_view(input, cursor, max_w)
}

} // verus!
