use zappaw::client::text::{
    byte_pos_of_char, calc_vis_width, chunk_text_by_bounds, count_all_chars, enforce_clip_limit,
    injectPadding, pad_to_width, retrieveCharW, truncate_to_width, visible_width, wrap_text,
};
use zappaw::local::text::{byte_index_at_char, char_count, char_width};

#[test]
fn widths_of_ascii_wide_and_control() {
    assert_eq!(retrieveCharW('a'), 1);
    assert_eq!(retrieveCharW('漢'), 2);
    assert_eq!(retrieveCharW('\u{7}'), 0);
    assert_eq!(retrieveCharW('\0'), 0);
    assert_eq!(char_width('x'), 1);
    assert_eq!(calc_vis_width("ab漢"), 4);
    assert_eq!(visible_width("a\tb"), 2);
}

#[test]
fn counting_and_byte_offsets() {
    assert_eq!(count_all_chars("héllo"), 5);
    assert_eq!(char_count(""), 0);
    assert_eq!(byte_pos_of_char("héllo", 0), 0);
    assert_eq!(byte_pos_of_char("héllo", 2), 3);
    assert_eq!(byte_pos_of_char("héllo", 5), 6);
    assert_eq!(byte_pos_of_char("héllo", 50), 6);
    assert_eq!(byte_index_at_char("日本", 1), 3);
    assert_eq!(byte_index_at_char("a😀b", 2), 5);
}

#[test]
fn clipping_stops_at_first_overflow() {
    assert_eq!(enforce_clip_limit("hello", 3), "hel");
    assert_eq!(enforce_clip_limit("hello", 0), "");
    assert_eq!(enforce_clip_limit("漢字x", 3), "漢");
    assert_eq!(truncate_to_width("ab", 10), "ab");
}

#[test]
fn padding_reaches_target_width() {
    assert_eq!(injectPadding("ab", 5), "ab   ");
    assert_eq!(calc_vis_width(&injectPadding("漢", 5)), 5);
    assert_eq!(pad_to_width("abcdef", 3), "abc");
    assert_eq!(pad_to_width("abc", 3), "abc");
    assert_eq!(pad_to_width("", 0), "");
}

#[test]
fn wrapping_breaks_lines() {
    assert_eq!(chunk_text_by_bounds("abcdef", 4), vec!["abcd".to_string(), "ef".to_string()]);
    assert_eq!(chunk_text_by_bounds("ab\ncd", 10), vec!["ab".to_string(), "cd".to_string()]);
    assert_eq!(chunk_text_by_bounds("ab\n", 10), vec!["ab".to_string()]);
    assert_eq!(chunk_text_by_bounds("", 10), vec![String::new()]);
    assert_eq!(wrap_text("anything", 0), vec![String::new()]);
    assert_eq!(wrap_text("漢漢", 1), vec!["漢".to_string(), "漢".to_string()]);
}

#[test]
fn wrapping_keeps_text_and_fits() {
    let text = "the quick\nbrown fox jumps";
    let lines = chunk_text_by_bounds(text, 6);
    let joined: String = lines.concat();
    assert_eq!(joined, text.replace('\n', ""));
    for l in &lines {
        assert!(calc_vis_width(l) <= 6);
    }
}
