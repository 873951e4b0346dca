use script_merger::resolver::resolve_conflict;
use script_merger::resolver::resolve_conflicts_in_file;
use script_merger::resolver::Conflict;

#[test]
fn no_markers_passes_through() {
    let input = "a plain file\nwith two lines\n";
    let r = resolve_conflicts_in_file(input);
    assert_eq!(r, Ok(String::from(input)));
}

#[test]
fn empty_input_passes_through() {
    let r = resolve_conflicts_in_file("");
    assert_eq!(r, Ok(String::new()));
}

#[test]
fn blank_ours_and_original_resolve_to_theirs() {
    let input = "pre<<<<<<< ours\n \n||||||| original\n\n=======\nNEW\n>>>>>>> theirspost";
    let r = resolve_conflicts_in_file(input);
    assert_eq!(r, Ok(String::from("pre\nNEW\npost")));
}

#[test]
fn blank_theirs_and_original_resolve_to_ours() {
    let input = "pre<<<<<<< ours\nKEPT\n||||||| original\n\n=======\n\t\n>>>>>>> theirspost";
    let r = resolve_conflicts_in_file(input);
    assert_eq!(r, Ok(String::from("pre\nKEPT\npost")));
}

#[test]
fn unresolved_region_round_trips_exactly() {
    let input = "pre<<<<<<< ours\nX\n||||||| original\nB\n=======\nY\n>>>>>>> theirspost";
    let r = resolve_conflicts_in_file(input);
    assert_eq!(r, Err(String::from(input)));
}

#[test]
fn unresolved_file_with_several_regions_round_trips_exactly() {
    let input = "lead<<<<<<< ours\nX\n||||||| original\nB\n=======\nY\n>>>>>>> theirsmiddle<<<<<<< ours\nP\n||||||| original\nQ\n=======\nR\n>>>>>>> theirstail";
    let r = resolve_conflicts_in_file(input);
    assert_eq!(r, Err(String::from(input)));
}

#[test]
fn mixed_regions_keep_only_the_unresolved_one() {
    let input = "a<<<<<<< ours \n||||||| original\n=======\nADD\n>>>>>>> theirsb<<<<<<< ours\nX\n||||||| original\nB\n=======\nY\n>>>>>>> theirsc";
    let r = resolve_conflicts_in_file(input);
    assert_eq!(
        r,
        Err(String::from(
            "a\nADD\nb<<<<<<< ours\nX\n||||||| original\nB\n=======\nY\n>>>>>>> theirsc"
        ))
    );
}

#[test]
fn all_blank_region_resolves_to_theirs_side() {
    let input = "<<<<<<< ours\n||||||| original\n=======\n \n>>>>>>> theirs";
    let r = resolve_conflicts_in_file(input);
    assert_eq!(r, Ok(String::from("\n \n")));
}

#[test]
fn resolve_conflict_blank_ours_and_original_gives_theirs() {
    let c = Conflict { ours: " \n\t", original: "\n\n", theirs: "content" };
    assert_eq!(resolve_conflict(c), Ok("content"));
}

#[test]
fn resolve_conflict_blank_theirs_and_original_gives_ours() {
    let c = Conflict { ours: "content", original: " ", theirs: "\n \n" };
    assert_eq!(resolve_conflict(c), Ok("content"));
}

#[test]
fn resolve_conflict_both_sides_nonblank_is_err() {
    let c = Conflict { ours: "left", original: "", theirs: "right" };
    assert_eq!(resolve_conflict(c), Err(()));
}

#[test]
fn resolve_conflict_nonblank_original_is_err() {
    let c = Conflict { ours: " ", original: "was here", theirs: "right" };
    assert_eq!(resolve_conflict(c), Err(()));
}

#[test]
fn resolve_conflict_all_blank_prefers_theirs() {
    let c = Conflict { ours: " ", original: "\n", theirs: "\t" };
    assert_eq!(resolve_conflict(c), Ok("\t"));
}

#[test]
fn lone_mid_marker_is_plain_text() {
    // A piece lacking one of the two mid markers is plain text, however
    // marker-like it looks.
    let r = resolve_conflicts_in_file("x=======y");
    assert_eq!(r, Ok(String::from("x=======y")));
}

#[test]
fn stray_end_marker_is_consumed_by_the_split() {
    // Stray marker tokens in ordinary content misclassify: the cut drops
    // the token. The accepted fragility of the format, kept as is.
    let r = resolve_conflicts_in_file("a>>>>>>> theirsb");
    assert_eq!(r, Ok(String::from("ab")));
}

#[test]
fn unclosed_start_marker_is_consumed_by_the_split() {
    let r = resolve_conflicts_in_file("x<<<<<<< oursy");
    assert_eq!(r, Ok(String::from("xy")));
}
