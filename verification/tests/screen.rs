use zappaw::client::draw::{_pad_horiz, box_frame_cells, calc_input_view, centered_text, horizontal_rule};
use zappaw::local::draw::input_view;
use zappaw::local::render::{
    bubble_line_x, bubble_rows, chat_viewport, connection_defaults, help_modal_area, help_panel_lines,
    input_cursor_position, intro_art, masked_entry_step, split_words, wizard_layout, wrap_bubble_text,
    MaskedEcho, MaskedKey,
};

#[test]
fn rules_and_frames() {
    assert_eq!(_pad_horiz(3), "---");
    assert_eq!(horizontal_rule(1), None);
    assert_eq!(horizontal_rule(2), Some("++".to_string()));
    assert_eq!(horizontal_rule(5), Some("+---+".to_string()));
    assert!(box_frame_cells(0, 0, 1, 5).is_empty());
    let cells = box_frame_cells(2, 3, 4, 4);
    let got: Vec<(u16, u16, String)> = cells.into_iter().map(|p| (p.col, p.row, p.text)).collect();
    assert_eq!(
        got,
        vec![
            (2, 3, "+--+".to_string()),
            (2, 4, "|".to_string()),
            (5, 4, "|".to_string()),
            (2, 5, "|".to_string()),
            (5, 5, "|".to_string()),
            (2, 6, "+--+".to_string()),
        ]
    );
}

#[test]
fn centering() {
    let p = centered_text(10, "abcd");
    assert_eq!(p.col, 3);
    assert_eq!(p.text, "abcd");
    let q = centered_text(3, "abcdef");
    assert_eq!(q.col, 0);
    assert_eq!(q.text, "abc");
}

#[test]
fn input_window_follows_caret() {
    assert_eq!(calc_input_view("hello world", 3, 20), ("hello world".to_string(), 3));
    assert_eq!(calc_input_view("hello world", 11, 5), ("orld".to_string(), 4));
    assert_eq!(calc_input_view("abc", 1, 0), (String::new(), 0));
    assert_eq!(input_view("漢字かな", 4, 4), ("字か".to_string(), 4));
    assert_eq!(input_view("漢字かな", 3, 4), ("漢字".to_string(), 4));
    assert_eq!(input_view("漢字かな", 1, 5), ("漢字".to_string(), 2));
}

#[test]
fn art_and_help() {
    let art = intro_art();
    assert_eq!(art.len(), 22);
    assert!(art.iter().all(|l| l.len() == 50));
    let help = help_panel_lines();
    assert_eq!(help[0], "Commands");
    assert_eq!(help[8], "/bottom      jump to bottom");
}

#[test]
fn wizard_defaults() {
    let (n, r, p) = connection_defaults("  \n", "\t\n", "pw".to_string());
    assert_eq!((n.as_str(), r.as_str(), p.as_str()), ("You", "global", "pw"));
    let (n, r, _) = connection_defaults(" ann\n", "lobby \n", String::new());
    assert_eq!((n.as_str(), r.as_str()), ("ann", "lobby"));
}

#[test]
fn words_and_bubbles() {
    assert_eq!(split_words("  a  bc\td "), vec!["a".to_string(), "bc".to_string(), "d".to_string()]);
    assert_eq!(wrap_bubble_text("aa bb cc", 5), vec!["aa bb".to_string(), "cc".to_string()]);
    assert_eq!(wrap_bubble_text("   ", 5), vec![String::new()]);
    assert_eq!(wrap_bubble_text("toolongword x", 4), vec!["toolongword".to_string(), "x".to_string()]);
    let rows = bubble_rows(&vec!["hi".to_string(), "a".to_string()]);
    assert_eq!(
        rows,
        vec![
            "╭────╮".to_string(),
            "│ hi  │".to_string(),
            "│ a   │".to_string(),
            "╰────╯".to_string(),
        ]
    );
    assert_eq!(bubble_rows(&vec![String::new()])[1], "│    │");
}

#[test]
fn viewport_windows() {
    assert_eq!(chat_viewport(30, 10, 0), (20, 30));
    assert_eq!(chat_viewport(30, 10, 5), (15, 25));
    assert_eq!(chat_viewport(30, 10, 100), (0, 10));
    assert_eq!(chat_viewport(4, 10, 3), (0, 10));
}

#[test]
fn wizard_positions() {
    let l = wizard_layout(80, 40);
    assert_eq!(l.art_top, 5);
    assert_eq!(l.art_cols.len(), 22);
    assert!(l.art_cols.iter().all(|c| *c == 15));
    assert_eq!(l.subtitle_col, 23);
    assert_eq!(l.subtitle_row, 29);
    assert_eq!(l.prompt_col, 30);
    assert_eq!(l.prompt_row, 31);
    let tiny = wizard_layout(10, 10);
    assert_eq!((tiny.art_top, tiny.art_cols[0], tiny.subtitle_col, tiny.prompt_col), (0, 0, 0, 0));
}

#[test]
fn masked_password_entry() {
    let mut buf = String::new();
    assert!(matches!(masked_entry_step(&mut buf, MaskedKey::Backspace), MaskedEcho::Nothing));
    assert!(matches!(masked_entry_step(&mut buf, MaskedKey::Char('p')), MaskedEcho::Star));
    assert!(matches!(masked_entry_step(&mut buf, MaskedKey::Char('ш')), MaskedEcho::Star));
    assert!(matches!(masked_entry_step(&mut buf, MaskedKey::Backspace), MaskedEcho::Erase));
    assert!(matches!(masked_entry_step(&mut buf, MaskedKey::Other), MaskedEcho::Nothing));
    assert!(matches!(masked_entry_step(&mut buf, MaskedKey::Enter), MaskedEcho::Done));
    assert_eq!(buf, "p");
}

#[test]
fn screen_positions() {
    assert_eq!(input_cursor_position(0, 20, 80, 5), (9, 21));
    assert_eq!(input_cursor_position(0, 20, 10, 50), (8, 21));
    assert_eq!(help_modal_area(0, 3, 80, 20, 11), (25, 12, 30, 11));
    assert_eq!(help_modal_area(2, 3, 20, 5, 11), (4, 3, 16, 11));
    assert_eq!(bubble_line_x(false, 2, 40, 10, 3), (5, 37));
    assert_eq!(bubble_line_x(true, 2, 40, 10, 3), (35, 7));
    assert_eq!(bubble_line_x(true, 2, 40, 60, 0), (2, 40));
}

#[test]
fn viewport_near_the_machine_limit() {
    assert_eq!(chat_viewport(usize::MAX, 10, 0), (usize::MAX - 10, usize::MAX));
    assert_eq!(chat_viewport(3, usize::MAX, 0), (0, usize::MAX));
}
