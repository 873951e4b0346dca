use script_merger::message::build_conflict_message;
use script_merger::message::empty_message;
use script_merger::prompt::prompt_conflicts_in_file;

#[test]
fn message_carries_identity_and_one_descriptor() {
    let input = "PRE<<<<<<< oursOURS||||||| originalORIG=======THEIRS>>>>>>> theirsPOST";
    let m = build_conflict_message(input, "file.ws", "out/file.ws", "modFoo");
    assert_eq!(m.file_name, "file.ws");
    assert_eq!(m.file_path, "out/file.ws");
    assert_eq!(m.mod_name, "modFoo");
    assert_eq!(m.conflicts.len(), 1);
    let d = &m.conflicts[0];
    assert_eq!(d.ours, "OURS");
    assert_eq!(d.original, "ORIG");
    assert_eq!(d.theirs, "THEIRS");
    assert_eq!(d.context_before, "PRE");
    assert_eq!(d.context_after, "POST");
    assert_eq!(d.context_original_size, 300);
}

#[test]
fn message_lists_regions_in_order() {
    let input = "a<<<<<<< ours1||||||| original2=======3>>>>>>> theirsb<<<<<<< ours4||||||| original5=======6>>>>>>> theirsc";
    let m = build_conflict_message(input, "f", "p", "m");
    assert_eq!(m.conflicts.len(), 2);
    assert_eq!(m.conflicts[0].ours, "1");
    assert_eq!(m.conflicts[0].original, "2");
    assert_eq!(m.conflicts[0].theirs, "3");
    assert_eq!(m.conflicts[1].ours, "4");
    assert_eq!(m.conflicts[1].original, "5");
    assert_eq!(m.conflicts[1].theirs, "6");
    assert_eq!(m.conflicts[1].context_after, "c");
}

#[test]
fn text_without_regions_gives_an_empty_list() {
    let m = build_conflict_message("no conflicts here", "f", "p", "m");
    assert_eq!(m.conflicts.len(), 0);
}

#[test]
fn sentinel_message_is_empty() {
    let m = empty_message();
    assert_eq!(m.conflicts.len(), 0);
    assert_eq!(m.file_name, "");
    assert_eq!(m.file_path, "");
    assert_eq!(m.mod_name, "");
}

#[test]
fn prompt_resolves_each_region_to_the_baseline_span() {
    let input = "pre<<<<<<< ours\nX\n||||||| original\nB\n=======\nY\n>>>>>>> theirspost";
    let r = prompt_conflicts_in_file(input);
    assert_eq!(r, "pre\nB\npost");
}

#[test]
fn prompt_passes_plain_text_through() {
    assert_eq!(prompt_conflicts_in_file("nothing to do"), "nothing to do");
}
