//! Properties that hold across the library's operations.
use crate::chars::{is_white_space, lemma_encode_utf8_concat, trim_end_ws, trim_start_ws, trim_ws, utf8_len};
use crate::client::input::{backspaced, caret_left, caret_right, deleted_forward, edit_point, skip_space_back, skip_word_back, typed, word_start, word_swept, lemma_skip_space_back_bounds, lemma_skip_word_back_bounds};
use crate::client::api::{base_url_of, hex_value, is_url_escape, percent_decoded, strip_trailing_slashes, url_escape, url_escaped, MessageResponse};
use crate::client::app::HelpState;
use crate::client::commands::{command_case_folded, command_name, command_outcome, done_with, first_space, kind_of, lowercase, requested, strip_leading_slashes, is_command, toggled, CommandEffect, CommandKind};
use crate::client::app::App;
use crate::chars::{all_ascii, ascii_lower, ascii_lowered, decimal, is_control_char};
use crate::client::app::Message;
use crate::client::commands::{command_arg, transcript_of};
use crate::client::events::{key_input_of, key_outcome, KeyInput, KeyMods, KeyName, KeyOutcome};
use crate::local::render::{bubble_width, max_byte_len};
use crate::client::draw::{input_caret, input_window, view_start};
use crate::client::events::{fresh, response_ids};
use crate::client::text::{clipped, lemma_clip_fit_width, wrap_fold, wrapped};
use crate::local::render::{bubble_lines, fill_fold, viewport_of, word_fold, words_of};
use vstd::utf8::encode_utf8;
use crate::width::{cell_width, lemma_seq_width_concat, seq_width};
use vstd::prelude::*;

verus! {

/// Typing a character (`insertChar`) and then pressing backspace
/// (`erase_prev`) gives back the line and the caret as they were, whenever
/// the caret was within the line.
pub proof fn law_backspace_undoes_typing(s: Seq<char>, pos: int, c: char)
    requires
        0 <= pos <= s.len(),
    ensures
        backspaced(typed(s, pos, c), pos + 1) == s,
        caret_left(pos + 1) == pos,
{
    assert(edit_point(s, pos) == pos);
    assert(typed(s, pos, c).remove(pos) =~= s);
}

/// With the caret inside the line, stepping left and deleting forward
/// removes the same character as a backspace.
pub proof fn law_delete_after_left_is_backspace(s: Seq<char>, pos: int)
    requires
        0 < pos <= s.len(),
    ensures
        deleted_forward(s, caret_left(pos)) == backspaced(s, pos),
{
}

/// Every editing step keeps the caret within the line when it starts there.
pub proof fn law_edits_keep_caret_in_line(s: Seq<char>, pos: int, c: char)
    requires
        0 <= pos <= s.len(),
    ensures
        pos + 1 <= typed(s, pos, c).len(),
        caret_left(pos) <= backspaced(s, pos).len(),
        pos <= deleted_forward(s, pos).len(),
        caret_right(s, pos) <= s.len(),
        0 <= word_start(s, pos) <= word_swept(s, pos).len(),
{
    lemma_skip_space_back_bounds(s, pos);
    lemma_skip_word_back_bounds(s, skip_space_back(s, pos));
}

/// Removing the word before the caret removes exactly the characters
/// between the word's start and the caret: one run of non-white-space
/// characters followed by one run of white space.
pub proof fn law_word_sweep_removes_one_word(s: Seq<char>, pos: int)
    requires
        0 <= pos <= s.len(),
    ensures
        word_swept(s, pos).len() == s.len() - (pos - word_start(s, pos)),
        forall|k: int| word_start(s, pos) <= k < skip_space_back(s, pos) ==> !is_white_space(#[trigger] s[k]),
        forall|k: int| skip_space_back(s, pos) <= k < pos ==> is_white_space(#[trigger] s[k]),
        word_start(s, pos) == 0 || is_white_space(s[word_start(s, pos) - 1]),
{
    lemma_space_run(s, pos);
    lemma_skip_space_back_bounds(s, pos);
    lemma_word_run(s, skip_space_back(s, pos));
    lemma_skip_word_back_bounds(s, skip_space_back(s, pos));
}

proof fn lemma_space_run(s: Seq<char>, i: int)
    requires
        0 <= i <= s.len(),
    ensures
        forall|k: int| skip_space_back(s, i) <= k < i ==> is_white_space(#[trigger] s[k]),
    decreases i,
{
    if 0 < i && is_white_space(s[i - 1]) {
        lemma_space_run(s, i - 1);
    }
}

proof fn lemma_word_run(s: Seq<char>, i: int)
    requires
        0 <= i <= s.len(),
    ensures
        forall|k: int| skip_word_back(s, i) <= k < i ==> !is_white_space(#[trigger] s[k]),
        skip_word_back(s, i) == 0 || is_white_space(s[skip_word_back(s, i) - 1]),
    decreases i,
{
    if 0 < i && !is_white_space(s[i - 1]) {
        lemma_word_run(s, i - 1);
    }
}

/// Clipping keeps a prefix of the text and never exceeds the limit.
pub proof fn law_clipped_text_fits(s: Seq<char>, limit: nat)
    ensures
        seq_width(clipped(s, limit)) <= limit,
        clipped(s, limit) == s.take(clipped(s, limit).len() as int),
{
    if limit == 0 {
        assert(seq_width(Seq::<char>::empty()) == 0);
        assert(s.take(0) =~= Seq::<char>::empty());
    } else {
        lemma_clip_fit_width(s, limit);
    }
}

/// Every line that the wrapper produces fits in the width, unless it holds
/// a single character that is wider than the width on its own; no line
/// holds a newline.
pub proof fn law_wrapped_lines_fit(s: Seq<char>, max: nat)
    ensures
        forall|k: int|
            0 <= k < wrapped(s, max).len() ==> (seq_width(#[trigger] wrapped(s, max)[k]) <= max
                || wrapped(s, max)[k].len() == 1),
        forall|k: int, j: int|
            0 <= k < wrapped(s, max).len() && 0 <= j < wrapped(s, max)[k].len() ==> #[trigger] wrapped(s, max)[k][j] != '\n',
{
    if max == 0 {
        assert(seq_width(Seq::<char>::empty()) == 0);
    } else {
        lemma_wrap_fold_fits(s, max);
        let st = wrap_fold(s, max);
        if st.1.len() > 0 || st.0.len() == 0 {
            assert(wrapped(s, max) == st.0.push(st.1));
            assert forall|k: int| 0 <= k < wrapped(s, max).len() implies (seq_width(
                #[trigger] wrapped(s, max)[k],
            ) <= max || wrapped(s, max)[k].len() == 1) by {
                if k < st.0.len() {
                    assert(wrapped(s, max)[k] == st.0[k]);
                }
            }
            assert forall|k: int, j: int|
                0 <= k < wrapped(s, max).len() && 0 <= j < wrapped(s, max)[k].len() implies #[trigger] wrapped(s, max)[k][j] != '\n' by {
                if k < st.0.len() {
                    assert(wrapped(s, max)[k] == st.0[k]);
                }
            }
        }
    }
}

/// The wrapper's state: the width it tracks is the current line's width,
/// and every line fits or holds a single character; no line holds a
/// newline.
proof fn lemma_wrap_fold_fits(s: Seq<char>, max: nat)
    requires
        max > 0,
    ensures
        ({
            let st = wrap_fold(s, max);
            &&& st.2 == seq_width(st.1)
            &&& seq_width(st.1) <= max || st.1.len() == 1
            &&& forall|k: int| 0 <= k < st.0.len() ==> (seq_width(#[trigger] st.0[k]) <= max || st.0[k].len() == 1)
            &&& forall|j: int| 0 <= j < st.1.len() ==> #[trigger] st.1[j] != '\n'
            &&& forall|k: int, j: int| 0 <= k < st.0.len() && 0 <= j < st.0[k].len() ==> #[trigger] st.0[k][j] != '\n'
        }),
    decreases s.len(),
{
    if s.len() == 0 {
        assert(seq_width(Seq::<char>::empty()) == 0);
    } else {
        lemma_wrap_fold_fits(s.drop_last(), max);
        let prev = wrap_fold(s.drop_last(), max);
        let c = s.last();
        lemma_seq_width_concat(prev.1, seq![c]);
        lemma_seq_width_concat(Seq::<char>::empty(), seq![c]);
        assert(seq![c].drop_first() =~= Seq::<char>::empty());
        assert(seq_width(Seq::<char>::empty()) == 0);
        assert(prev.1.push(c) =~= prev.1 + seq![c]);
        let st = wrap_fold(s, max);
        assert forall|k: int, j: int| 0 <= k < st.0.len() && 0 <= j < st.0[k].len() implies #[trigger] st.0[k][j] != '\n' by {
            if k < prev.0.len() {
                assert(st.0[k] == prev.0[k]);
            }
        }
        assert forall|k: int| 0 <= k < st.0.len() implies (seq_width(#[trigger] st.0[k]) <= max || st.0[k].len() == 1) by {
            if k < prev.0.len() {
                assert(st.0[k] == prev.0[k]);
            }
        }
    }
}

/// Merging the same batch of polled messages a second time adds nothing.
pub proof fn law_merge_twice_adds_nothing(known: Seq<Seq<char>>, incoming: Seq<MessageResponse>)
    ensures
        fresh(known + response_ids(fresh(known, incoming)), incoming).len() == 0,
{
    lemma_fresh_covers(known, incoming);
    lemma_fresh_empty_when_known(known + response_ids(fresh(known, incoming)), incoming);
}

/// After a merge, every polled ID is known.
proof fn lemma_fresh_covers(known: Seq<Seq<char>>, incoming: Seq<MessageResponse>)
    ensures
        forall|k: int| 0 <= k < incoming.len() ==> (known + response_ids(fresh(known, incoming))).contains(#[trigger] incoming[k].id@),
        forall|x: Seq<char>| known.contains(x) ==> (known + response_ids(fresh(known, incoming))).contains(x),
    decreases incoming.len(),
{
    let all = known + response_ids(fresh(known, incoming));
    assert forall|x: Seq<char>| known.contains(x) implies all.contains(x) by {
        let i = choose|i: int| 0 <= i < known.len() && known[i] == x;
        assert(all[i] == x);
    }
    if incoming.len() > 0 {
        let m = incoming[0];
        let rest = incoming.drop_first();
        if known.contains(m.id@) {
            assert(fresh(known, incoming) == fresh(known, rest));
            lemma_fresh_covers(known, rest);
            assert forall|k: int| 0 <= k < incoming.len() implies all.contains(#[trigger] incoming[k].id@) by {
                if k > 0 {
                    assert(incoming[k] == rest[k - 1]);
                    assert(all.contains(rest[k - 1].id@));
                } else {
                    assert(known.contains(incoming[0].id@));
                }
            }
        } else {
            let known2 = known.push(m.id@);
            assert(fresh(known, incoming) == seq![m] + fresh(known2, rest));
            lemma_fresh_covers(known2, rest);
            let all2 = known2 + response_ids(fresh(known2, rest));
            assert(response_ids(seq![m] + fresh(known2, rest)) =~= seq![m.id@] + response_ids(fresh(known2, rest)));
            assert(all =~= all2);
            assert(known2[known.len() as int] == m.id@);
            assert(known2.contains(m.id@));
            assert(all2.contains(m.id@));
            assert forall|k: int| 0 <= k < incoming.len() implies all.contains(#[trigger] incoming[k].id@) by {
                if k > 0 {
                    assert(incoming[k] == rest[k - 1]);
                    assert(all2.contains(rest[k - 1].id@));
                } else {
                    assert(all2.contains(m.id@));
                }
            }
        }
    }
}

/// Nothing is fresh when every polled ID is known already.
proof fn lemma_fresh_empty_when_known(known: Seq<Seq<char>>, incoming: Seq<MessageResponse>)
    requires
        forall|k: int| 0 <= k < incoming.len() ==> known.contains(#[trigger] incoming[k].id@),
    ensures
        fresh(known, incoming).len() == 0,
    decreases incoming.len(),
{
    if incoming.len() > 0 {
        let rest = incoming.drop_first();
        assert(known.contains(incoming[0].id@));
        assert forall|k: int| 0 <= k < rest.len() implies known.contains(#[trigger] rest[k].id@) by {
            assert(rest[k] == incoming[k + 1]);
        }
        lemma_fresh_empty_when_known(known, rest);
    }
}

/// The base URL never ends with a slash.
pub proof fn law_base_url_has_no_trailing_slash(server: Seq<char>)
    ensures
        base_url_of(server).len() > 0,
        base_url_of(server).last() != '/',
{
    lemma_strip_trailing_slashes(server);
    reveal_strlit("http://localhost:3000");
}

proof fn lemma_strip_trailing_slashes(s: Seq<char>)
    ensures
        strip_trailing_slashes(s).len() == 0 || strip_trailing_slashes(s).last() != '/',
    decreases s.len(),
{
    if s.len() > 0 && s.last() == '/' {
        lemma_strip_trailing_slashes(s.drop_last());
    }
}

/// An escaped query value holds none of the characters that separate or
/// delimit query parameters (space, `&`, `=`, `+`), and every `%` in it
/// starts one of the five escapes, so nothing is escaped twice.
pub proof fn law_escaped_value_has_no_separators(s: Seq<char>)
    ensures
        forall|k: int|
            0 <= k < url_escaped(s).len() ==> {
                let c = #[trigger] url_escaped(s)[k];
                c != ' ' && c != '&' && c != '=' && c != '+'
            },
        forall|k: int|
            0 <= k < url_escaped(s).len() && #[trigger] url_escaped(s)[k] == '%' ==> k + 3 <= url_escaped(s).len()
                && is_url_escape(url_escaped(s).subrange(k, k + 3)),
    decreases s.len(),
{
    if s.len() > 0 {
        law_escaped_value_has_no_separators(s.drop_last());
        let prefix = url_escaped(s.drop_last());
        let tail = url_escape(s.last());
        let all = url_escaped(s);
        assert(all == prefix + tail);
        assert forall|k: int| 0 <= k < all.len() implies {
            let c = #[trigger] all[k];
            c != ' ' && c != '&' && c != '=' && c != '+'
        } by {
            if k < prefix.len() {
                assert(all[k] == prefix[k]);
            } else {
                assert(all[k] == tail[k - prefix.len()]);
            }
        }
        assert forall|k: int| 0 <= k < all.len() && #[trigger] all[k] == '%' implies k + 3 <= all.len()
            && is_url_escape(all.subrange(k, k + 3)) by {
            if k < prefix.len() {
                assert(all[k] == prefix[k]);
                assert(all.subrange(k, k + 3) =~= prefix.subrange(k, k + 3));
            } else {
                assert(all[k] == tail[k - prefix.len()]);
                assert(k == prefix.len());
                assert(all.subrange(k, k + 3) =~= tail);
            }
        }
    }
}

proof fn lemma_escaped_cons(c: char, t: Seq<char>)
    ensures
        url_escaped(seq![c] + t) == url_escape(c) + url_escaped(t),
    decreases t.len(),
{
    let u = seq![c] + t;
    if t.len() == 0 {
        assert(u =~= seq![c]);
        assert(u.drop_last() =~= Seq::<char>::empty());
        assert(url_escaped(t) == Seq::<char>::empty());
        assert(url_escape(c) + url_escaped(t) =~= url_escape(c));
        assert(url_escaped(u.drop_last()) == Seq::<char>::empty());
        assert(u.last() == c);
        assert(url_escaped(u) == url_escaped(u.drop_last()) + url_escape(u.last()));
        assert(Seq::<char>::empty() + url_escape(c) =~= url_escape(c));
    } else {
        lemma_escaped_cons(c, t.drop_last());
        assert(u.drop_last() =~= seq![c] + t.drop_last());
        assert(u.last() == t.last());
        assert(url_escaped(u) =~= url_escape(c) + url_escaped(t));
    }
}

/// Percent-decoding an escaped query value gives the value back.
pub proof fn law_escaping_round_trip(s: Seq<char>)
    ensures
        percent_decoded(url_escaped(s)) == s,
    decreases s.len(),
{
    if s.len() > 0 {
        let c = s[0];
        let rest = s.drop_first();
        assert(s =~= seq![c] + rest);
        lemma_escaped_cons(c, rest);
        law_escaping_round_trip(rest);
        let e = url_escaped(rest);
        let x = url_escape(c) + e;
        assert(url_escaped(s) == x);
        if c == '%' || c == ' ' || c == '+' || c == '&' || c == '=' {
            assert(x.skip(3) =~= e);
            assert(x[0] == '%');
            assert((16 * hex_value(x[1]) + hex_value(x[2])) as char == c);
            assert(percent_decoded(x) =~= seq![c] + percent_decoded(e));
        } else {
            assert(x.skip(1) =~= e);
            assert(x[0] == c);
            assert(percent_decoded(x) =~= seq![c] + percent_decoded(e));
        }
        assert(seq![c] + rest =~= s);
    }
}

/// The chat window always spans the viewport's height and starts within the
/// chat; unscrolled, it ends at the last line (or below it, when the chat is
/// shorter than the viewport); scrolled all the way up, it starts at the
/// first line.
pub proof fn law_viewport_window(total: nat, viewport_h: nat, scroll: nat)
    ensures
        viewport_of(total, viewport_h, scroll).1 - viewport_of(total, viewport_h, scroll).0 == viewport_h,
        viewport_of(total, viewport_h, scroll).0 <= total,
        scroll == 0 ==> viewport_of(total, viewport_h, scroll).1 == (if total > viewport_h { total } else { viewport_h }),
        scroll + viewport_h >= total ==> viewport_of(total, viewport_h, scroll).0 == 0,
{
}

/// The input field shows no more than its width, and its caret never lies
/// beyond what it shows.
pub proof fn law_input_view_fits(val: Seq<char>, cursor: nat, max: nat)
    ensures
        seq_width(input_window(val, cursor, max)) <= max,
        input_caret(val, cursor, max) <= seq_width(input_window(val, cursor, max)),
{
    let w = input_window(val, cursor, max);
    if max == 0 || view_start(cursor, max) >= val.len() {
        assert(seq_width(Seq::<char>::empty()) == 0);
        assert(w.take(0) =~= Seq::<char>::empty());
    } else {
        lemma_clip_fit_width(val.skip(view_start(cursor, max) as int), max);
    }
    let before = (cursor - view_start(cursor, max)) as nat;
    let k = if before < w.len() { before as int } else { w.len() as int };
    assert(w =~= w.take(k) + w.skip(k));
    lemma_seq_width_concat(w.take(k), w.skip(k));
}

/// Toggling the help panel twice leaves it as it was.
pub proof fn law_help_toggle_twice(h: HelpState)
    ensures
        toggled(toggled(h)) == h,
{
}

/// A line that reads `/help` in any mix of ASCII capital and small letters
/// (around white space) toggles the help panel, reports the panel's new
/// state and changes nothing but the panel and the time of the toggle; the
/// same line run a second time puts the panel back as it was.
pub proof fn law_help_command_toggles(
    before: App,
    mid: App,
    after: App,
    line: Seq<char>,
    first: CommandEffect,
    second: CommandEffect,
)
    requires
        all_ascii(trim_ws(line)),
        ascii_lowered(trim_ws(line)) == "/help"@,
        command_case_folded(line),
        command_outcome(before, mid, line, first),
        command_outcome(mid, after, line, second),
    ensures
        mid.help == toggled(before.help),
        mid == (App { help: mid.help, help_toggled_at: mid.help_toggled_at, ..before }),
        done_with(first, if mid.help == HelpState::Open { "help opened"@ } else { "help closed"@ }),
        after.help == before.help,
        after == (App { help_toggled_at: after.help_toggled_at, ..before }),
{
    lemma_help_line(trim_ws(line));
}

proof fn lemma_help_line(raw: Seq<char>)
    requires
        all_ascii(raw),
        ascii_lowered(raw) == "/help"@,
        is_command(raw) && all_ascii(command_name(raw)) ==> lowercase(command_name(raw)) == ascii_lowered(command_name(raw)),
    ensures
        is_command(raw),
        requested(raw) == CommandKind::Help,
{
    reveal_strlit("/help");
    reveal_strlit("help");
    let low = ascii_lowered(raw);
    assert(low.len() == raw.len());
    assert("/help"@.len() == 5);
    assert(raw.len() == 5);
    assert forall|k: int| 0 <= k < 5 implies ascii_lower(#[trigger] raw[k]) == "/help"@[k] by {
        assert(low[k] == ascii_lower(raw[k]));
    }
    assert(raw[0] == '/');
    assert(raw[1] != ' ' && raw[1] != '/');
    assert(raw[2] != ' ' && raw[3] != ' ' && raw[4] != ' ');
    assert(first_space(raw) == 5) by {
        reveal_with_fuel(first_space, 6);
        assert(raw.drop_first().drop_first().drop_first().drop_first().drop_first().len() == 0);
    }
    assert(raw.take(5) =~= raw);
    assert(strip_leading_slashes(raw) == strip_leading_slashes(raw.drop_first()));
    assert(strip_leading_slashes(raw.drop_first()) == raw.drop_first());
    let name = raw.drop_first();
    assert(command_name(raw) == name);
    assert(all_ascii(name)) by {
        assert forall|k: int| 0 <= k < name.len() implies (#[trigger] name[k] as u32) < 128 by {
            assert(name[k] == raw[k + 1]);
        }
    }
    assert(ascii_lowered(name) =~= "help"@) by {
        assert forall|k: int| 0 <= k < 4 implies #[trigger] ascii_lowered(name)[k] == "help"@[k] by {
            assert(low[k + 1] == ascii_lower(raw[k + 1]));
        }
    }
    assert(kind_of("help"@) == CommandKind::Help);
}

/// The lines of `lines` written one after another.
pub open spec fn joined(lines: Seq<Seq<char>>) -> Seq<char>
    decreases lines.len(),
{
    if lines.len() == 0 {
        Seq::empty()
    } else {
        joined(lines.drop_last()) + lines.last()
    }
}

/// `s` without its newlines.
pub open spec fn without_newlines(s: Seq<char>) -> Seq<char>
    decreases s.len(),
{
    if s.len() == 0 {
        Seq::empty()
    } else if s.last() == '\n' {
        without_newlines(s.drop_last())
    } else {
        without_newlines(s.drop_last()).push(s.last())
    }
}

/// Wrapping loses no text: the wrapped lines, written one after another,
/// are the text without its newlines (for any width above zero).
pub proof fn law_wrapping_keeps_text(s: Seq<char>, max: nat)
    requires
        max > 0,
    ensures
        joined(wrapped(s, max)) == without_newlines(s),
{
    lemma_wrap_fold_keeps_text(s, max);
    let st = wrap_fold(s, max);
    if st.1.len() > 0 || st.0.len() == 0 {
        assert(st.0.push(st.1).drop_last() =~= st.0);
    } else {
        assert(joined(st.0) + st.1 =~= joined(st.0));
    }
}

proof fn lemma_wrap_fold_keeps_text(s: Seq<char>, max: nat)
    ensures
        joined(wrap_fold(s, max).0) + wrap_fold(s, max).1 == without_newlines(s),
    decreases s.len(),
{
    if s.len() == 0 {
        assert(Seq::<char>::empty() + Seq::<char>::empty() =~= Seq::<char>::empty());
    } else {
        lemma_wrap_fold_keeps_text(s.drop_last(), max);
        let prev = wrap_fold(s.drop_last(), max);
        let st = wrap_fold(s, max);
        let c = s.last();
        assert(prev.0.push(prev.1).drop_last() =~= prev.0);
        if c == '\n' {
            assert(joined(st.0) + st.1 =~= joined(prev.0) + prev.1);
        } else if prev.2 + cell_width(c) > max && prev.1.len() > 0 {
            assert(joined(st.0) + st.1 =~= (joined(prev.0) + prev.1).push(c));
        } else {
            assert(joined(st.0) + st.1 =~= (joined(prev.0) + prev.1).push(c));
        }
    }
}

/// Merging polled messages never puts two messages with the same server ID
/// into a conversation whose IDs were distinct.
pub proof fn law_merge_keeps_ids_distinct(known: Seq<Seq<char>>, incoming: Seq<MessageResponse>)
    requires
        known.no_duplicates(),
    ensures
        (known + response_ids(fresh(known, incoming))).no_duplicates(),
    decreases incoming.len(),
{
    if incoming.len() == 0 {
        assert(known + response_ids(fresh(known, incoming)) =~= known);
    } else {
        let m = incoming[0];
        let rest = incoming.drop_first();
        if known.contains(m.id@) {
            assert(fresh(known, incoming) == fresh(known, rest));
            law_merge_keeps_ids_distinct(known, rest);
        } else {
            let known2 = known.push(m.id@);
            assert(known2.no_duplicates()) by {
                assert forall|i: int, j: int| 0 <= i < known2.len() && 0 <= j < known2.len() && i != j implies known2[i] != known2[j] by {
                    if i == known.len() {
                        assert(known2[j] == known[j]);
                    } else if j == known.len() {
                        assert(known2[i] == known[i]);
                    } else {
                        assert(known2[i] == known[i] && known2[j] == known[j]);
                    }
                }
            }
            assert(fresh(known, incoming) == seq![m] + fresh(known2, rest));
            law_merge_keeps_ids_distinct(known2, rest);
            assert(response_ids(seq![m] + fresh(known2, rest)) =~= seq![m.id@] + response_ids(fresh(known2, rest)));
            assert(known + response_ids(fresh(known, incoming)) =~= known2 + response_ids(fresh(known2, rest)));
        }
    }
}

/// Trimming a trimmed line changes nothing, so a line that the input box
/// submits already trimmed is read by the command parser as it is.
pub proof fn law_trim_is_idempotent(s: Seq<char>)
    ensures
        trim_ws(trim_ws(s)) == trim_ws(s),
{
    let a = trim_start_ws(s);
    lemma_trim_start_first(s);
    lemma_trim_end_keeps_first(a);
    let t = trim_end_ws(a);
    lemma_trim_start_noop(t);
    lemma_trim_end_last(a);
    lemma_trim_end_noop(t);
}

proof fn lemma_trim_start_first(s: Seq<char>)
    ensures
        trim_start_ws(s).len() == 0 || !is_white_space(trim_start_ws(s)[0]),
    decreases s.len(),
{
    if s.len() > 0 && is_white_space(s[0]) {
        lemma_trim_start_first(s.drop_first());
    }
}

proof fn lemma_trim_end_last(s: Seq<char>)
    ensures
        trim_end_ws(s).len() == 0 || !is_white_space(trim_end_ws(s).last()),
    decreases s.len(),
{
    if s.len() > 0 && is_white_space(s.last()) {
        lemma_trim_end_last(s.drop_last());
    }
}

proof fn lemma_trim_end_keeps_first(s: Seq<char>)
    requires
        s.len() == 0 || !is_white_space(s[0]),
    ensures
        trim_end_ws(s).len() == 0 || !is_white_space(trim_end_ws(s)[0]),
    decreases s.len(),
{
    if s.len() > 0 && is_white_space(s.last()) {
        assert(s.len() > 1);
        assert(s.drop_last()[0] == s[0]);
        lemma_trim_end_keeps_first(s.drop_last());
    }
}

proof fn lemma_trim_start_noop(s: Seq<char>)
    requires
        s.len() == 0 || !is_white_space(s[0]),
    ensures
        trim_start_ws(s) == s,
{
}

proof fn lemma_trim_end_noop(s: Seq<char>)
    requires
        s.len() == 0 || !is_white_space(s.last()),
    ensures
        trim_end_ws(s) == s,
{
}

/// Every line of a message bubble fits in the bubble's byte width, unless
/// it is a single word too long to fit on any line.
pub proof fn law_bubble_lines_fit(text: Seq<char>, max: nat)
    ensures
        forall|k: int|
            0 <= k < bubble_lines(text, max).len() ==> (utf8_len(#[trigger] bubble_lines(text, max)[k]) <= max
                || no_white_space(bubble_lines(text, max)[k])),
{
    lemma_words_have_no_space(text);
    lemma_fill_fold_fits(words_of(text), max);
    let st = fill_fold(words_of(text), max);
    let ls = if st.1.len() > 0 { st.0.push(st.1) } else { st.0 };
    assert forall|k: int| 0 <= k < ls.len() implies (utf8_len(#[trigger] ls[k]) <= max || no_white_space(ls[k])) by {
        if k < st.0.len() {
            assert(ls[k] == st.0[k]);
        }
    }
    if ls.len() == 0 {
        assert(encode_utf8(Seq::<char>::empty()) =~= Seq::<u8>::empty());
        assert(bubble_lines(text, max) == seq![Seq::<char>::empty()]);
        assert(utf8_len(bubble_lines(text, max)[0]) == 0);
    }
}

/// Whether `s` holds no white space.
pub open spec fn no_white_space(s: Seq<char>) -> bool {
    forall|j: int| 0 <= j < s.len() ==> !is_white_space(#[trigger] s[j])
}

proof fn lemma_words_have_no_space(s: Seq<char>)
    ensures
        forall|k: int| 0 <= k < words_of(s).len() ==> no_white_space(#[trigger] words_of(s)[k]),
{
    lemma_word_fold_no_space(s);
    let st = word_fold(s);
    if st.1.len() > 0 {
        assert forall|k: int| 0 <= k < words_of(s).len() implies no_white_space(#[trigger] words_of(s)[k]) by {
            if k < st.0.len() {
                assert(words_of(s)[k] == st.0[k]);
            }
        }
    }
}

proof fn lemma_word_fold_no_space(s: Seq<char>)
    ensures
        forall|k: int| 0 <= k < word_fold(s).0.len() ==> no_white_space(#[trigger] word_fold(s).0[k]),
        no_white_space(word_fold(s).1),
    decreases s.len(),
{
    if s.len() > 0 {
        lemma_word_fold_no_space(s.drop_last());
        let prev = word_fold(s.drop_last());
        let st = word_fold(s);
        assert forall|k: int| 0 <= k < st.0.len() implies no_white_space(#[trigger] st.0[k]) by {
            if k < prev.0.len() {
                assert(st.0[k] == prev.0[k]);
            }
        }
        assert forall|j: int| 0 <= j < st.1.len() implies !is_white_space(#[trigger] st.1[j]) by {
            if j < prev.1.len() && !is_white_space(s.last()) {
                assert(st.1[j] == prev.1[j]);
            }
        }
    }
}

/// Adding a space and a word to a line adds their lengths and one byte.
proof fn lemma_utf8_len_join(a: Seq<char>, b: Seq<char>)
    ensures
        utf8_len(a.push(' ') + b) == utf8_len(a) + 1 + utf8_len(b),
{
    assert(a.push(' ') =~= a + seq![' ']);
    lemma_encode_utf8_concat(a, seq![' ']);
    lemma_encode_utf8_concat(a.push(' '), b);
    assert(seq![' '].drop_first() =~= Seq::<char>::empty());
    assert(encode_utf8(Seq::<char>::empty()) =~= Seq::<u8>::empty());
    assert((' ' as u32) == 32);
    assert(encode_utf8(seq![' ']).len() == 1);
}

proof fn lemma_fill_fold_fits(words: Seq<Seq<char>>, max: nat)
    requires
        forall|k: int| 0 <= k < words.len() ==> no_white_space(#[trigger] words[k]),
    ensures
        forall|k: int|
            0 <= k < fill_fold(words, max).0.len() ==> (utf8_len(#[trigger] fill_fold(words, max).0[k]) <= max
                || no_white_space(fill_fold(words, max).0[k])),
        utf8_len(fill_fold(words, max).1) <= max || no_white_space(fill_fold(words, max).1),
    decreases words.len(),
{
    if words.len() > 0 {
        let rest = words.drop_last();
        assert forall|k: int| 0 <= k < rest.len() implies no_white_space(#[trigger] rest[k]) by {
            assert(rest[k] == words[k]);
        }
        lemma_fill_fold_fits(rest, max);
        let prev = fill_fold(rest, max);
        let w = words.last();
        assert(no_white_space(words[words.len() - 1]));
        let st = fill_fold(words, max);
        lemma_utf8_len_join(prev.1, w);
        assert forall|k: int| 0 <= k < st.0.len() implies (utf8_len(#[trigger] st.0[k]) <= max || no_white_space(st.0[k])) by {
            if k < prev.0.len() {
                assert(st.0[k] == prev.0[k]);
            }
        }
    }
}

/// The bubble is as wide as its longest line (at least one byte) plus two
/// columns of border and two of padding: every line fits between the
/// borders with a space on each side, and the longest one (or the
/// one-column minimum) fills it exactly.
pub proof fn law_bubble_fits_longest_line(lines: Seq<Seq<char>>)
    requires
        forall|i: int| 0 <= i < lines.len() ==> utf8_len(#[trigger] lines[i]) + 4 <= u16::MAX,
    ensures
        bubble_width(lines) >= 5,
        forall|i: int| 0 <= i < lines.len() ==> utf8_len(#[trigger] lines[i]) + 4 <= bubble_width(lines),
        bubble_width(lines) == 5 || exists|i: int|
            0 <= i < lines.len() && bubble_width(lines) == utf8_len(#[trigger] lines[i]) + 4,
{
    lemma_longest_line(lines);
}

proof fn lemma_longest_line(lines: Seq<Seq<char>>)
    ensures
        forall|i: int| 0 <= i < lines.len() ==> utf8_len(#[trigger] lines[i]) <= max_byte_len(lines),
        max_byte_len(lines) == 0 || exists|i: int|
            0 <= i < lines.len() && max_byte_len(lines) == utf8_len(#[trigger] lines[i]),
    decreases lines.len(),
{
    if lines.len() > 0 {
        let init = lines.drop_last();
        lemma_longest_line(init);
        assert forall|i: int| 0 <= i < lines.len() implies utf8_len(#[trigger] lines[i]) <= max_byte_len(lines) by {
            if i < init.len() {
                assert(lines[i] == init[i]);
            }
        }
        if max_byte_len(lines) != 0 {
            if utf8_len(lines.last()) > max_byte_len(init) {
                assert(max_byte_len(lines) == utf8_len(lines[lines.len() - 1]));
            } else {
                let i = choose|i: int| 0 <= i < init.len() && max_byte_len(init) == utf8_len(#[trigger] init[i]);
                assert(lines[i] == init[i]);
            }
        }
    }
}

/// `/nick NAME` (the command word in any mix of ASCII capital and small
/// letters) sets the display name to NAME exactly as typed and reports it,
/// changing nothing else; a `/me TEXT` run next sends the action under that
/// name, unchanged.
pub proof fn law_nick_keeps_name_as_typed(
    before: App,
    mid: App,
    after: App,
    line: Seq<char>,
    me_line: Seq<char>,
    first: CommandEffect,
    second: CommandEffect,
)
    requires
        is_command(trim_ws(line)),
        all_ascii(command_name(trim_ws(line))),
        ascii_lowered(command_name(trim_ws(line))) == "nick"@,
        command_arg(trim_ws(line)).len() > 0,
        command_case_folded(line),
        command_outcome(before, mid, line, first),
        is_command(trim_ws(me_line)),
        all_ascii(command_name(trim_ws(me_line))),
        ascii_lowered(command_name(trim_ws(me_line))) == "me"@,
        command_arg(trim_ws(me_line)).len() > 0,
        command_case_folded(me_line),
        command_outcome(mid, after, me_line, second),
    ensures
        mid.username@ == command_arg(trim_ws(line)),
        mid == (App { username: mid.username, ..before }),
        done_with(first, "display name changed to "@ + command_arg(trim_ws(line))),
        second matches CommandEffect::Send { text, action } && action && text@ == "* "@
            + command_arg(trim_ws(line)) + " "@ + command_arg(trim_ws(me_line)),
        after == mid,
{
    reveal_strlit("help");
    reveal_strlit("clear");
    reveal_strlit("nick");
    reveal_strlit("save");
    reveal_strlit("me");
    assert("nick"@ != "help"@ && "nick"@ != "clear"@) by {
        assert("nick"@[0] != "help"@[0]);
        assert("nick"@[0] != "clear"@[0]);
    }
    assert(kind_of("nick"@) == CommandKind::Nick);
    assert("me"@ != "help"@ && "me"@ != "clear"@ && "me"@ != "nick"@ && "me"@ != "save"@) by {
        assert("me"@.len() != "help"@.len());
        assert("me"@.len() != "clear"@.len());
        assert("me"@[0] != "nick"@[0]);
        assert("me"@.len() != "save"@.len());
    }
    assert(kind_of("me"@) == CommandKind::Me);
    assert(requested(trim_ws(line)) == CommandKind::Nick);
    assert(requested(trim_ws(me_line)) == CommandKind::Me);
}

/// Inside the line, a step right moves the caret exactly one character on,
/// and a step left brings it back; at the end of the line it stays put.
pub proof fn law_step_right(s: Seq<char>, p: int)
    requires
        0 <= p <= s.len(),
    ensures
        p < s.len() ==> caret_right(s, p) == p + 1 && caret_left(caret_right(s, p)) == p,
        p == s.len() ==> caret_right(s, p) == p,
{
}

/// The editing keys, with any modifiers held, do to the input line what
/// their names say: Delete removes the character under the caret and leaves
/// the caret in place, Backspace removes the one before the caret and steps
/// back, Left and Right move the caret one character, Home and End move it
/// to the ends; none of them touches anything but the line and the caret.
pub proof fn law_editing_keys(before: App, after: App, name: KeyName, mods: KeyMods, out: KeyOutcome)
    requires
        key_outcome(before, after, key_input_of(name, mods), out),
        before.cursor <= before.input@.len(),
    ensures
        name is Delete && before.cursor < before.input@.len() ==> after.input@ == before.input@.remove(
            before.cursor as int,
        ) && after.cursor == before.cursor,
        name is Delete && before.cursor == before.input@.len() ==> after.input@ == before.input@
            && after.cursor == before.cursor,
        name is Backspace && before.cursor > 0 ==> after.input@ == before.input@.remove(before.cursor - 1)
            && after.cursor == before.cursor - 1,
        name is Backspace && before.cursor == 0 ==> after.input@ == before.input@ && after.cursor == 0,
        name is Left ==> after.input == before.input && after.cursor == (if before.cursor > 0 {
            before.cursor - 1
        } else {
            0
        }),
        name is Right ==> after.input == before.input && after.cursor == (if before.cursor
            < before.input@.len() {
            before.cursor + 1
        } else {
            before.cursor as int
        }),
        name is Home ==> after.input == before.input && after.cursor == 0,
        name is End ==> after.input == before.input && after.cursor == before.input@.len(),
        name is Delete || name is Backspace || name is Left || name is Right || name is Home
            || name is End ==> after == (App { input: after.input, cursor: after.cursor, ..before }),
        name is Delete || name is Backspace || name is Left || name is Right || name is Home
            || name is End ==> out is Redraw,
{
}

/// A character typed with no modifier or with Shift alone goes into the
/// line at the caret and the caret moves past it; a control character
/// changes nothing. Ctrl+C quits on an empty line and clears a non-empty
/// one; Ctrl+D always quits; Esc alone and Ctrl+U empty the line.
pub proof fn law_typing_and_control_keys(before: App, after: App, name: KeyName, mods: KeyMods, out: KeyOutcome)
    requires
        key_outcome(before, after, key_input_of(name, mods), out),
        before.cursor <= before.input@.len(),
    ensures
        (name matches KeyName::Char(ch) && !mods.control && !mods.others && !is_control_char(ch)) ==> {
            &&& after.input@ == before.input@.insert(before.cursor as int, name->Char_0)
            &&& after.cursor == before.cursor + 1
            &&& after == (App { input: after.input, cursor: after.cursor, ..before })
        },
        (name matches KeyName::Char(ch) && !mods.control && !mods.others && is_control_char(ch)) ==> after
            == before,
        (name == KeyName::Char('c') && mods.control && !mods.shift && !mods.others) ==> (if before.input@.len()
            == 0 {
            out is Quit && after == before
        } else {
            out is Redraw && after.input@.len() == 0 && after.cursor == 0
        }),
        (name == KeyName::Char('d') && mods.control && !mods.shift && !mods.others) ==> out is Quit
            && after == before,
        ((name is Esc && !mods.control && !mods.shift && !mods.others) || (name == KeyName::Char('u')
            && mods.control && !mods.shift && !mods.others)) ==> after.input@.len() == 0 && after.cursor
            == 0 && after == (App { input: after.input, cursor: 0, ..before }),
{
}

/// The saved transcript starts with the application name, the user and a
/// separator, and each message added to the conversation, whoever sent it,
/// adds exactly one line at the end: its number, its sender in brackets
/// and its text.
pub proof fn law_transcript_lists_every_message(user: Seq<char>, msgs: Seq<Message>, m: Message)
    ensures
        transcript_of(user, Seq::empty()) == "zappawcli\nuser: "@ + user + "\n---\n"@,
        transcript_of(user, msgs.push(m)) == transcript_of(user, msgs) + "#"@ + decimal(msgs.len() + 1)
            + " ["@ + m.sender@ + "] "@ + m.text@ + "\n"@,
{
    reveal_strlit("zappawcli");
    reveal_strlit("zappawcli\nuser: ");
    reveal_strlit("\n---\n");
    reveal_strlit("\n");
    reveal_strlit("user: ");
    reveal_strlit("---\n");
    assert(msgs.push(m).drop_last() =~= msgs);
    assert(transcript_of(user, Seq::empty()) =~= "zappawcli\nuser: "@ + user + "\n---\n"@);
    assert(transcript_of(user, msgs.push(m)) =~= transcript_of(user, msgs) + "#"@ + decimal(msgs.len() + 1)
        + " ["@ + m.sender@ + "] "@ + m.text@ + "\n"@);
}

} // verus!
