use ptui::items::build_items;
use ptui::pager::PagerState;
use ptui::records::AnnotateLine;
use ptui::select::{Key, SelectOutcome, SelectState};
use ptui::session::{PagerSession, PagerSessionStep, SelectSession, SelectSessionStep, UiEvent};

fn small_select() -> SelectState {
    let labels: Vec<String> = vec!["a".to_string(), "b".to_string()];
    let (items, _) = build_items(&labels);
    SelectState::new(items, 2, true, false)
}

fn small_pager() -> PagerState {
    let lines: Vec<AnnotateLine> = (0..10)
        .map(|i| AnnotateLine {
            cl_number: format!("{}", i),
            username: "u".to_string(),
            date: "2024/01/01".to_string(),
            line_content: "x".to_string(),
        })
        .collect();
    PagerState::new(lines, 4)
}

#[test]
fn select_session_releases_raw_mode_on_write_failure() {
    // A failed terminal write mid-frame must disable raw mode before the
    // error surfaces to the caller.
    let mut s = SelectSession::begin(small_select());
    assert!(s.raw_on);
    let r = s.step(UiEvent::IoFailure);
    assert!(matches!(r, SelectSessionStep::Aborted));
    assert!(!s.raw_on);
}

#[test]
fn select_session_releases_raw_mode_on_cancel_and_confirm() {
    let mut s = SelectSession::begin(small_select());
    s.step(UiEvent::Key(Key::Down));
    assert!(s.raw_on); // still running
    let r = s.step(UiEvent::Key(Key::Esc));
    assert!(matches!(r, SelectSessionStep::Finished(SelectOutcome::Cancelled)));
    assert!(!s.raw_on);

    let mut s2 = SelectSession::begin(small_select());
    let r2 = s2.step(UiEvent::Key(Key::Enter));
    assert!(matches!(r2, SelectSessionStep::Finished(SelectOutcome::ChosenSet(_))));
    assert!(!s2.raw_on);
}

#[test]
fn pager_session_releases_terminal_on_every_exit() {
    let mut p = PagerSession::begin(small_pager());
    assert!(p.raw_on);
    assert!(p.cursor_hidden);
    let r = p.step(UiEvent::IoFailure);
    assert!(matches!(r, PagerSessionStep::Aborted));
    assert!(!p.raw_on);
    assert!(!p.cursor_hidden);

    let mut p2 = PagerSession::begin(small_pager());
    let r2 = p2.step(UiEvent::Key(Key::Char('q')));
    assert!(matches!(r2, PagerSessionStep::Finished));
    assert!(!p2.raw_on);
    assert!(!p2.cursor_hidden);
}

#[test]
fn pager_session_shows_cursor_during_search_entry() {
    let mut p = PagerSession::begin(small_pager());
    p.step(UiEvent::Key(Key::Char('/')));
    assert!(!p.cursor_hidden); // typing a query: cursor visible
    assert!(p.raw_on);
    p.step(UiEvent::Key(Key::Esc)); // abandon the sub-mode
    assert!(p.cursor_hidden);
    assert!(p.raw_on); // the widget itself is still running
}
