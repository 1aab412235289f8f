use zappaw::client::input::{
    delAtCursor, erase_prev, goToEnd, insertChar, jump_to_start, moveRight, shift_caret_left,
    sweep_previous_word,
};
use zappaw::local::input::{delete_at_cursor, delete_before_cursor, insert_char_at_cursor};

#[test]
fn insert_in_middle_and_at_end() {
    let mut s = String::from("hllo");
    let mut c = 1usize;
    insertChar(&mut s, &mut c, 'e');
    assert_eq!(s, "hello");
    assert_eq!(c, 2);
    let mut c2 = 99usize;
    insertChar(&mut s, &mut c2, '!');
    assert_eq!(s, "hello!");
    assert_eq!(c2, 100);
}

#[test]
fn insert_multibyte_characters() {
    let mut s = String::from("Пвет");
    let mut c = 1usize;
    insertChar(&mut s, &mut c, 'р');
    assert_eq!(s, "Првет");
    insertChar(&mut s, &mut c, 'и');
    assert_eq!(s, "Привет");
    assert_eq!(c, 3);
}

#[test]
fn backspace_removes_previous_char() {
    let mut s = String::from("héllo");
    let mut c = 2usize;
    erase_prev(&mut s, &mut c);
    assert_eq!(s, "hllo");
    assert_eq!(c, 1);
}

#[test]
fn backspace_at_start_does_nothing() {
    let mut s = String::from("abc");
    let mut c = 0usize;
    erase_prev(&mut s, &mut c);
    assert_eq!(s, "abc");
    assert_eq!(c, 0);
}

#[test]
fn backspace_beyond_end_only_moves_caret() {
    let mut s = String::from("abc");
    let mut c = 7usize;
    erase_prev(&mut s, &mut c);
    assert_eq!(s, "abc");
    assert_eq!(c, 6);
}

#[test]
fn backspace_undoes_typing() {
    let mut s = String::from("chat");
    let mut c = 2usize;
    insertChar(&mut s, &mut c, 'X');
    erase_prev(&mut s, &mut c);
    assert_eq!(s, "chat");
    assert_eq!(c, 2);
}

#[test]
fn delete_under_caret() {
    let mut s = String::from("abcd");
    let mut c = 1usize;
    delAtCursor(&mut s, &mut c);
    assert_eq!(s, "acd");
    assert_eq!(c, 1);
    let mut end = 3usize;
    delAtCursor(&mut s, &mut end);
    assert_eq!(s, "acd");
    assert_eq!(end, 3);
}

#[test]
fn delete_after_left_equals_backspace() {
    let mut a = String::from("wörd");
    let mut ca = 2usize;
    shift_caret_left(&mut ca);
    delAtCursor(&mut a, &mut ca);
    let mut b = String::from("wörd");
    let mut cb = 2usize;
    erase_prev(&mut b, &mut cb);
    assert_eq!(a, b);
    assert_eq!(ca, cb);
}

#[test]
fn caret_moves_stay_in_bounds() {
    let mut c = 0usize;
    shift_caret_left(&mut c);
    assert_eq!(c, 0);
    moveRight("ab", &mut c);
    moveRight("ab", &mut c);
    moveRight("ab", &mut c);
    assert_eq!(c, 2);
    jump_to_start(&mut c);
    assert_eq!(c, 0);
    goToEnd("日本語", &mut c);
    assert_eq!(c, 3);
}

#[test]
fn sweep_word_with_trailing_spaces() {
    let mut s = String::from("hello big  world");
    let mut c = 11usize;
    sweep_previous_word(&mut s, &mut c);
    assert_eq!(s, "hello world");
    assert_eq!(c, 6);
}

#[test]
fn sweep_word_at_end() {
    let mut s = String::from("one two");
    let mut c = 7usize;
    sweep_previous_word(&mut s, &mut c);
    assert_eq!(s, "one ");
    assert_eq!(c, 4);
    sweep_previous_word(&mut s, &mut c);
    assert_eq!(s, "");
    assert_eq!(c, 0);
    sweep_previous_word(&mut s, &mut c);
    assert_eq!(s, "");
    assert_eq!(c, 0);
}

#[test]
fn demo_editor_edits_like_client() {
    let mut s = String::new();
    let mut c = 0usize;
    insert_char_at_cursor(&mut s, &mut c, 'a');
    insert_char_at_cursor(&mut s, &mut c, 'b');
    assert_eq!(s, "ab");
    delete_before_cursor(&mut s, &mut c);
    assert_eq!(s, "a");
    assert_eq!(c, 1);
    c = 0;
    delete_at_cursor(&mut s, &mut c);
    assert_eq!(s, "");
    assert_eq!(c, 0);
}
