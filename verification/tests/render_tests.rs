use ptui::pager::PagerState;
use ptui::records::AnnotateLine;
use ptui::render::{
    annotate_col_widths, checkbox_label, render_annotate_row, render_file_row, render_header_row,
    render_select_footer, row_style, status_line, RowStyle,
};
use ptui::select::Key;

fn line(cl: &str, user: &str, date: &str, text: &str) -> AnnotateLine {
    AnnotateLine {
        cl_number: cl.to_string(),
        username: user.to_string(),
        date: date.to_string(),
        line_content: text.to_string(),
    }
}

#[test]
fn column_widths_span_the_whole_dataset() {
    let lines = vec![
        line("1", "u", "2024/01/01", "a"),
        line("123456789", "longusername", "2024/01/01", "b"),
        line("12", "u2", "2024/01/01", "c"),
    ];
    assert_eq!(annotate_col_widths(&lines), (9, 12));
    // The floors hold when every value is narrow.
    let narrow = vec![line("1", "u", "d", "t")];
    assert_eq!(annotate_col_widths(&narrow), (8, 10));
}

#[test]
fn annotate_row_aligns_and_fits() {
    let l = line("12", "bob", "2024/01/02", "x");
    assert_eq!(
        render_annotate_row(&l, 8, 10, 80),
        "      12 bob        2024/01/02 x"
    );
    // Cut to 10 columns with a trailing ellipsis.
    assert_eq!(render_annotate_row(&l, 8, 10, 10), "      12 \u{2026}");
}

#[test]
fn row_styles_are_three_way() {
    let matches: Vec<usize> = vec![3, 10, 22];
    assert_eq!(row_style(10, &matches, Some(1)), RowStyle::CurrentMatchRow);
    assert_eq!(row_style(3, &matches, Some(1)), RowStyle::MatchRow);
    assert_eq!(row_style(4, &matches, Some(1)), RowStyle::Plain);
    assert_eq!(row_style(3, &matches, None), RowStyle::MatchRow);
}

#[test]
fn status_line_without_query() {
    let lines: Vec<AnnotateLine> = (0..3).map(|i| line(&format!("{}", i), "u", "d", "t")).collect();
    let p = PagerState::new(lines, 2);
    let s = status_line(&p, 70);
    assert_eq!(s.chars().count(), 70);
    assert!(s.starts_with(
        "Lines 1-2/3 | q:quit /:search \u{2191}\u{2193}:scroll PgUp/PgDn:page"
    ));
}

#[test]
fn status_line_with_query_and_match_position() {
    let mut lines: Vec<AnnotateLine> =
        (0..30).map(|i| line(&format!("{}", i), "u", "d", "t")).collect();
    lines[5].line_content = "needle".to_string();
    lines[9].line_content = "needle".to_string();
    let mut p = PagerState::new(lines, 10);
    p.handle_key(Key::Char('/'));
    for c in "needle".chars() {
        p.handle_key(Key::Char(c));
    }
    p.handle_key(Key::Enter);
    let s = status_line(&p, 80);
    assert_eq!(s.chars().count(), 80);
    assert!(s.starts_with(
        "Lines 1-10/30 | Search: 'needle' (1/2 matches) | q:quit /:search n:next p:prev"
    ));
}

#[test]
fn status_line_with_query_but_no_matches() {
    let lines: Vec<AnnotateLine> = (0..4).map(|i| line(&format!("{}", i), "u", "d", "t")).collect();
    let mut p = PagerState::new(lines, 2);
    p.handle_key(Key::Char('/'));
    p.handle_key(Key::Char('z'));
    p.handle_key(Key::Enter);
    let s = status_line(&p, 60);
    assert_eq!(s.chars().count(), 60);
    assert!(s.starts_with("Lines 1-2/4 | Search: 'z' (no matches) | q:quit /:search"));
}

#[test]
fn status_line_cut_to_narrow_terminal() {
    let lines: Vec<AnnotateLine> = (0..3).map(|i| line(&format!("{}", i), "u", "d", "t")).collect();
    let p = PagerState::new(lines, 2);
    let s = status_line(&p, 8);
    assert_eq!(s.chars().count(), 8);
    assert_eq!(s, "Lines 1\u{2026}");
}

#[test]
fn checkbox_shows_tri_state() {
    assert_eq!(checkbox_label(true, true), "[\u{2713}]");
    assert_eq!(checkbox_label(false, true), "[\u{25d0}]");
    assert_eq!(checkbox_label(false, false), "[ ]");
}

#[test]
fn header_row_text() {
    assert_eq!(
        render_header_row(true, false, true, "42", Some("fix the build"), 3),
        "\u{2192}  [\u{25d0}] \u{1f4cb} CL 42 - fix the build \u{2014} 3 file(s)"
    );
    assert_eq!(
        render_header_row(false, false, false, "default (pending)", None, 1),
        "   [ ] \u{1f4cb} CL default (pending) \u{2014} 1 file(s)"
    );
}

#[test]
fn file_row_text() {
    assert_eq!(
        render_file_row(true, true, "//depot/a.c"),
        "  \u{2192}  [\u{2713}]     //depot/a.c"
    );
    assert_eq!(
        render_file_row(false, false, "//depot/b.c"),
        "     [ ]     //depot/b.c"
    );
}

#[test]
fn footer_counts_selection() {
    assert_eq!(render_select_footer(0), "Selected: 0 file(s)");
    assert_eq!(render_select_footer(12), "Selected: 12 file(s)");
}
