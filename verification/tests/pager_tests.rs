use ptui::pager::{find_search_matches, PagerState};
use ptui::records::AnnotateLine;
use ptui::select::Key;

fn line(cl: &str, user: &str, date: &str, text: &str) -> AnnotateLine {
    AnnotateLine {
        cl_number: cl.to_string(),
        username: user.to_string(),
        date: date.to_string(),
        line_content: text.to_string(),
    }
}

fn plain_lines(n: usize) -> Vec<AnnotateLine> {
    (0..n).map(|i| line(&format!("{}", i), "alice", "2024/01/01", "text")).collect()
}

#[test]
fn end_home_and_page_down_clamp() {
    // total = 500, viewport height = 40.
    let mut p = PagerState::new(plain_lines(500), 40);
    assert!(!p.handle_key(Key::End));
    assert_eq!(p.top, 460);
    assert!(!p.handle_key(Key::PageDown));
    assert_eq!(p.top, 460); // no overscroll
    assert!(!p.handle_key(Key::Home));
    assert_eq!(p.top, 0);
    assert!(!p.handle_key(Key::PageDown));
    assert_eq!(p.top, 40);
    assert!(!p.handle_key(Key::Up));
    assert_eq!(p.top, 39);
    assert!(!p.handle_key(Key::Down));
    assert_eq!(p.top, 40);
    assert!(!p.handle_key(Key::PageUp));
    assert_eq!(p.top, 0);
    assert!(!p.handle_key(Key::Up));
    assert_eq!(p.top, 0);
}

#[test]
fn viewport_shorter_than_data_never_scrolls() {
    let mut p = PagerState::new(plain_lines(5), 40);
    p.handle_key(Key::End);
    assert_eq!(p.top, 0);
    p.handle_key(Key::PageDown);
    assert_eq!(p.top, 0);
}

#[test]
fn search_finds_matches_and_wraps() {
    // Exactly lines 3, 10 and 22 contain "cl1" (in differing case).
    let mut lines = plain_lines(50);
    lines[3].line_content = "uses CL1 here".to_string();
    lines[10].cl_number = "1cl10".to_string();
    lines[22].line_content = "Cl1".to_string();
    let mut p = PagerState::new(lines, 40);
    p.handle_key(Key::Char('/'));
    p.handle_key(Key::Char('c'));
    p.handle_key(Key::Char('l'));
    p.handle_key(Key::Char('1'));
    p.handle_key(Key::Enter);
    assert_eq!(p.matches, vec![3, 10, 22]);
    assert_eq!(p.cur_match, Some(0));
    assert_eq!(p.top, 0); // max(0, 3 - 20)
    p.handle_key(Key::Char('n'));
    assert_eq!(p.cur_match, Some(1));
    assert_eq!(p.top, 0); // max(0, 10 - 20)
    p.handle_key(Key::Char('n'));
    assert_eq!(p.cur_match, Some(2));
    assert_eq!(p.top, 2); // max(0, 22 - 20)
    p.handle_key(Key::Char('n'));
    assert_eq!(p.cur_match, Some(0)); // wraparound
    p.handle_key(Key::Char('p'));
    assert_eq!(p.cur_match, Some(2));
    p.handle_key(Key::Char('N'));
    assert_eq!(p.cur_match, Some(1));
}

#[test]
fn search_escape_keeps_previous_matches() {
    let mut lines = plain_lines(30);
    lines[7].line_content = "needle".to_string();
    let mut p = PagerState::new(lines, 10);
    p.handle_key(Key::Char('/'));
    p.handle_key(Key::Char('n'));
    p.handle_key(Key::Char('e'));
    p.handle_key(Key::Char('e'));
    p.handle_key(Key::Char('d'));
    p.handle_key(Key::Enter);
    assert_eq!(p.matches, vec![7]);
    // Open the sub-mode again, type something, abandon it.
    p.handle_key(Key::Char('/'));
    p.handle_key(Key::Char('z'));
    p.handle_key(Key::Esc);
    assert_eq!(p.matches, vec![7]);
    assert_eq!(p.cur_match, Some(0));
}

#[test]
fn search_backspace_edits_query() {
    let mut lines = plain_lines(10);
    lines[4].username = "bob".to_string();
    let mut p = PagerState::new(lines, 4);
    p.handle_key(Key::Char('/'));
    p.handle_key(Key::Char('b'));
    p.handle_key(Key::Char('x'));
    p.handle_key(Key::Backspace);
    p.handle_key(Key::Char('o'));
    p.handle_key(Key::Char('b'));
    p.handle_key(Key::Enter);
    assert_eq!(p.matches, vec![4]);
}

#[test]
fn empty_commit_changes_nothing() {
    let mut p = PagerState::new(plain_lines(10), 4);
    p.handle_key(Key::Char('/'));
    p.handle_key(Key::Enter);
    assert!(p.query.is_none());
    assert!(p.matches.is_empty());
}

#[test]
fn no_match_query_clears_current_match() {
    let mut p = PagerState::new(plain_lines(10), 4);
    p.handle_key(Key::Char('/'));
    p.handle_key(Key::Char('z'));
    p.handle_key(Key::Char('z'));
    p.handle_key(Key::Enter);
    assert_eq!(p.matches, Vec::<usize>::new());
    assert_eq!(p.cur_match, None);
    // n / p do nothing without matches.
    let before = p.top;
    p.handle_key(Key::Char('n'));
    assert_eq!(p.cur_match, None);
    assert_eq!(p.top, before);
}

#[test]
fn search_is_case_insensitive_both_ways() {
    // The stored fields are folded, not the query alone: an upper-case
    // field must still match a lower-case query.
    let mut lines = plain_lines(6);
    lines[2].username = "ALICE".to_string();
    let matches = find_search_matches(&lines, "alice");
    // Every line has author "alice" except line 2's "ALICE"; both match.
    assert_eq!(matches, vec![0, 1, 2, 3, 4, 5]);
    let only_caps = find_search_matches(&plain_lines(3), "zz");
    assert_eq!(only_caps, Vec::<usize>::new());
}

#[test]
fn find_search_matches_checks_all_four_fields() {
    let lines = vec![
        line("900", "u", "2024/05/06", "t"),
        line("1", "maria", "2024/05/06", "t"),
        line("2", "u", "2023/12/31", "t"),
        line("3", "u", "2024/05/06", "return 900;"),
    ];
    assert_eq!(find_search_matches(&lines, "900"), vec![0, 3]);
    assert_eq!(find_search_matches(&lines, "maria"), vec![1]);
    assert_eq!(find_search_matches(&lines, "2023"), vec![2]);
}

#[test]
fn set_height_clamps_top() {
    let mut p = PagerState::new(plain_lines(100), 10);
    p.handle_key(Key::End);
    assert_eq!(p.top, 90);
    p.set_height(50);
    assert_eq!(p.top, 50);
}
