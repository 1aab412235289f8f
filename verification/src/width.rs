//! Display widths of characters and strings, as the `unicode-width` crate
//! computes them, and the spec functions that the text layout contracts use.
use unicode_width::{UnicodeWidthChar, UnicodeWidthStr};
use vstd::prelude::*;

verus! {

/// What `unicode_width::UnicodeWidthChar::width` returns for `c`: the
/// number of terminal columns of `c` following Unicode Standard Annex #11
/// (ambiguous characters counted as one column), or `None` for a control
/// character other than NUL. It is read from the crate's lookup tables.
pub uninterp spec fn unicode_char_width(c: char) -> Option<usize>;

/// The number of columns a character takes when a control character is
/// counted as zero columns wide.
pub open spec fn cell_width(c: char) -> nat {
    match unicode_char_width(c) {
        Some(w) => w as nat,
        None => 0,
    }
}

/// The number of columns a sequence of characters takes: the sum of the
/// widths of its characters.
pub open spec fn seq_width(s: Seq<char>) -> nat
    decreases s.len(),
{
    if s.len() == 0 {
        0
    } else {
        cell_width(s[0]) + seq_width(s.drop_first())
    }
}

/// Calls `unicode_width::UnicodeWidthChar::width`. Its result is the name
/// `unicode_char_width(c)`; beside it, the contract states what the crate's
/// `charwidth::width` shows before it consults its tables: printable ASCII
/// is one column, NUL is zero columns, the C0 and C1 control characters have
/// no width, and every character from U+00A0 on has a width of at most two
/// columns (the tables hold two bits per character, the value three standing
/// for one column). The table contents themselves are not stated.
#[verifier::external_body]
pub(crate) fn unicode_width_of_char(c: char) -> (r: Option<usize>)
    ensures
        r == unicode_char_width(c),
        0x20 <= (c as u32) && (c as u32) < 0x7F ==> r == Some(1usize),
        (c as u32) == 0 ==> r == Some(0usize),
        (0 < (c as u32) && (c as u32) < 0x20) || (0x7F <= (c as u32) && (c as u32) < 0xA0) ==> r is None,
        0xA0 <= (c as u32) ==> r is Some && r->0 <= 2,
{
    UnicodeWidthChar::width(c)
}

/// Calls `unicode_width::UnicodeWidthStr::width`, which in this version of
/// the crate sums `UnicodeWidthChar::width(c).unwrap_or(0)` over the
/// characters of `s`; the contract states that sum.
#[verifier::external_body]
pub(crate) fn unicode_width_of_str(s: &str) -> (r: usize)
    ensures
        r == seq_width(s@),
{
    UnicodeWidthStr::width(s)
}

/// The width of a concatenation is the sum of the widths.
pub proof fn lemma_seq_width_concat(a: Seq<char>, b: Seq<char>)
    ensures
        seq_width(a + b) == seq_width(a) + seq_width(b),
    decreases a.len(),
{
    if a.len() == 0 {
        assert(a + b =~= b);
    } else {
        assert((a + b).drop_first() =~= a.drop_first() + b);
        lemma_seq_width_concat(a.drop_first(), b);
    }
}

/// Taking one more character adds that character's width.
pub proof fn lemma_seq_width_take_step(s: Seq<char>, k: int)
    requires
        0 <= k < s.len(),
    ensures
        seq_width(s.take(k + 1)) == seq_width(s.take(k)) + cell_width(s[k]),
{
    assert(s.take(k + 1) =~= s.take(k) + seq![s[k]]);
    lemma_seq_width_concat(s.take(k), seq![s[k]]);
    assert(seq![s[k]].drop_first() =~= Seq::<char>::empty());
    assert(seq_width(Seq::<char>::empty()) == 0);
    assert(seq_width(seq![s[k]]) == cell_width(s[k]));
}

} // verus!
