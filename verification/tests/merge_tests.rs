use script_merger::merge::decide_file_action;
use script_merger::merge::merge_texts;
use script_merger::merge::FileAction;
use script_merger::merge::MergeOutcome;

#[test]
fn copy_when_no_accumulated_output() {
    assert_eq!(decide_file_action(true, false), FileAction::Copy);
}

#[test]
fn copy_when_no_baseline() {
    assert_eq!(decide_file_action(false, false), FileAction::Copy);
    assert_eq!(decide_file_action(false, true), FileAction::Copy);
}

#[test]
fn merge_when_both_exist() {
    assert_eq!(decide_file_action(true, true), FileAction::Merge);
}

#[test]
fn unmodified_side_merges_cleanly() {
    // One layer changed B to X earlier; the next layer leaves the file
    // unchanged, so the merge keeps the accumulated text with no conflict.
    let r = merge_texts("A\nB\nC", "A\nX\nC", "A\nB\nC");
    match r {
        MergeOutcome::CleanMerged(s) => assert_eq!(s, "A\nX\nC"),
        _ => panic!("expected a clean merge"),
    }
}

#[test]
fn both_sides_changed_line_merges_cleanly_when_equal() {
    let r = merge_texts("A\nB\nC", "A\nZ\nC", "A\nZ\nC");
    match r {
        MergeOutcome::CleanMerged(s) => assert_eq!(s, "A\nZ\nC"),
        _ => panic!("expected a clean merge"),
    }
}

#[test]
fn competing_edits_leave_marked_conflict() {
    // Both sides changed the same line differently and neither side is
    // blank: the heuristic cannot resolve it, and the four literal markers
    // bracket the region in the output.
    let r = merge_texts("A\nB\nC", "A\nX\nC", "A\nY\nC");
    match r {
        MergeOutcome::Conflicted(s) => {
            assert!(s.contains("<<<<<<< ours"));
            assert!(s.contains("||||||| original"));
            assert!(s.contains("======="));
            assert!(s.contains(">>>>>>> theirs"));
            assert!(s.contains("X"));
            assert!(s.contains("B"));
            assert!(s.contains("Y"));
            assert!(s.starts_with("A\n"));
        },
        _ => panic!("expected an unresolved conflict"),
    }
}

#[test]
fn blank_against_addition_auto_resolves() {
    // The accumulated side left a blank line where the layer adds text and
    // the baseline there is blank too: the merge conflicts, but the
    // heuristic resolves every region, so nothing is left for a strategy.
    let r = merge_texts("A\n \nC", "A\n\t\nC", "A\nNEW\nC");
    match r {
        MergeOutcome::CleanMerged(_) => panic!("expected a conflict"),
        // The winning span keeps the newlines that stood next to the
        // markers, so blank lines frame the inserted text.
        MergeOutcome::AutoResolved(s) => assert_eq!(s, "A\n\nNEW\n\nC"),
        MergeOutcome::Conflicted(s) => {
            panic!("heuristic should have resolved: {}", s)
        },
    }
}
