use ptui::records::{action_emoji, render_opened_line, OpenedFile};
use ptui::text::{strip_sgr, truncate_to_cols, visual_width};

#[test]
fn visual_width_counts_columns() {
    assert_eq!(visual_width("abc"), 3);
    assert_eq!(visual_width(""), 0);
    // Wide CJK glyphs take two columns each.
    assert_eq!(visual_width("\u{65e5}\u{672c}"), 4);
    assert_eq!(visual_width("a\u{65e5}b"), 4);
}

#[test]
fn visual_width_ignores_styling_sequences() {
    assert_eq!(visual_width("\u{1b}[1mhi\u{1b}[0m"), 2);
    assert_eq!(visual_width("\u{1b}[38;5;21mx\u{1b}[m"), 1);
    // An unterminated escape is not a styling sequence; its printable
    // characters still count (the ESC itself is a zero-width control).
    assert_eq!(visual_width("\u{1b}[12"), 3);
}

#[test]
fn strip_sgr_removes_only_styling() {
    let styled: Vec<char> = "\u{1b}[32mok\u{1b}[0m!".chars().collect();
    let plain: String = strip_sgr(&styled).into_iter().collect();
    assert_eq!(plain, "ok!");
}

#[test]
fn truncate_keeps_fitting_text() {
    let v: Vec<char> = "hello".chars().collect();
    let out: String = truncate_to_cols(&v, 5).into_iter().collect();
    assert_eq!(out, "hello");
}

#[test]
fn truncate_appends_ellipsis() {
    let v: Vec<char> = "hello world".chars().collect();
    let out: String = truncate_to_cols(&v, 7).into_iter().collect();
    assert_eq!(out, "hello \u{2026}");
}

#[test]
fn truncate_never_splits_a_glyph() {
    // "ab日" is 4 columns; a budget of 3 leaves room for "ab" and the
    // ellipsis, never half of the wide glyph.
    let v: Vec<char> = "ab\u{65e5}".chars().collect();
    let out: Vec<char> = truncate_to_cols(&v, 3);
    assert_eq!(out, vec!['a', 'b', '\u{2026}']);
}

#[test]
fn action_emoji_known_and_unknown() {
    assert_eq!(action_emoji("edit"), "\u{270f}\u{fe0f}");
    assert_eq!(action_emoji("add"), "\u{2795}");
    assert_eq!(action_emoji("delete"), "\u{1f5d1}\u{fe0f}");
    assert_eq!(action_emoji("integrate"), "\u{1f500}");
    assert_eq!(action_emoji("branch"), "\u{1f33f}");
    assert_eq!(action_emoji("move/add"), "\u{1f4e6}");
    assert_eq!(action_emoji("move/delete"), "\u{1f4e4}");
    assert_eq!(action_emoji("something-else"), "\u{1f4c4}");
}

#[test]
fn opened_line_layout_matches_column_format() {
    let f = OpenedFile {
        changelist: "123".to_string(),
        depot_file: "//depot/a/b.c".to_string(),
        action: "edit".to_string(),
        workrev: Some("7".to_string()),
    };
    let expected = format!(
        "{} {:<10} {:<6} {:<4} {}",
        "\u{270f}\u{fe0f}", "edit", "rev", "7", "//depot/a/b.c"
    );
    assert_eq!(render_opened_line(&f), expected);
}

#[test]
fn opened_line_missing_rev_shows_dash() {
    let f = OpenedFile {
        changelist: "default".to_string(),
        depot_file: "//d/x".to_string(),
        action: "add".to_string(),
        workrev: None,
    };
    let expected = format!(
        "{} {:<10} {:<6} {:<4} {}",
        "\u{2795}", "add", "rev", "-", "//d/x"
    );
    assert_eq!(render_opened_line(&f), expected);
}
