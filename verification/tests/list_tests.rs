use ptui::anchor::Anchor;
use ptui::clsets::{contains_string, dedup_strings, missing_from};
use ptui::tracklist::{add_tracked_cl, remove_tracked_cl};

fn v(items: &[&str]) -> Vec<String> {
    items.iter().map(|s| s.to_string()).collect()
}

#[test]
fn add_tracked_cl_appends_once() {
    let cls = v(&["100", "200"]);
    let with_new = add_tracked_cl(&cls, &"300".to_string());
    assert_eq!(with_new, v(&["100", "200", "300"]));
    let unchanged = add_tracked_cl(&with_new, &"200".to_string());
    assert_eq!(unchanged, v(&["100", "200", "300"]));
}

#[test]
fn remove_tracked_cl_drops_every_occurrence() {
    let cls = v(&["100", "200", "100"]);
    assert_eq!(remove_tracked_cl(&cls, &"100".to_string()), v(&["200"]));
    assert_eq!(remove_tracked_cl(&cls, &"999".to_string()), cls);
}

#[test]
fn dedup_keeps_first_occurrences() {
    assert_eq!(
        dedup_strings(&v(&["default", "42", "default", "7", "42"])),
        v(&["default", "42", "7"])
    );
    assert_eq!(dedup_strings(&v(&[])), Vec::<String>::new());
}

#[test]
fn missing_from_is_list_difference() {
    // Tracked changelists without opened files, and shelf comparisons,
    // are both this difference.
    let kept = v(&["10", "20", "30"]);
    let busy = v(&["20"]);
    assert_eq!(missing_from(&kept, &busy), v(&["10", "30"]));
    assert_eq!(missing_from(&busy, &kept), Vec::<String>::new());
}

#[test]
fn contains_string_by_content() {
    let cls = v(&["a", "b"]);
    assert!(contains_string(&cls, &"a".to_string()));
    assert!(!contains_string(&cls, &"c".to_string()));
}

#[test]
fn anchor_plan_keeps_position_when_block_fits() {
    let (a, relocated) = Anchor::plan(5, 10, 50, 20);
    assert!(!relocated);
    assert_eq!((a.col, a.row), (5, 10));
    assert!(!a.corrected);
}

#[test]
fn anchor_plan_relocates_near_bottom_when_short() {
    // 8 rows remain under the cursor but the block needs 20.
    let (a, relocated) = Anchor::plan(5, 42, 50, 20);
    assert!(relocated);
    assert_eq!((a.col, a.row), (0, 30));
}

#[test]
fn anchor_corrects_once_after_scroll() {
    let (mut a, _) = Anchor::plan(0, 40, 50, 20);
    assert_eq!(a.row, 30);
    // The terminal scrolled while printing: the frame of 20 rows actually
    // ended on row 45, not 50.
    a.note_frame_end(20, 45);
    assert!(a.corrected);
    assert_eq!(a.row, 25);
    // A later frame must never re-apply the correction.
    a.note_frame_end(20, 40);
    assert_eq!(a.row, 25);
}

#[test]
fn anchor_no_correction_when_end_matches() {
    let (mut a, _) = Anchor::plan(0, 3, 50, 10);
    a.note_frame_end(10, 13);
    assert!(a.corrected);
    assert_eq!(a.row, 3);
}
