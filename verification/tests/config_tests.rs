use script_merger::config::is_excluded;
use script_merger::config::is_layer_dir_name;
use script_merger::config::select_strategy;
use script_merger::config::ResolutionStrategy;

#[test]
fn editor_takes_precedence_over_json() {
    let editor = Some(String::from("/usr/bin/editor"));
    assert_eq!(select_strategy(&editor, true), ResolutionStrategy::ExternalEditor);
    assert_eq!(select_strategy(&editor, false), ResolutionStrategy::ExternalEditor);
}

#[test]
fn json_mode_selects_message_watch() {
    assert_eq!(select_strategy(&None, true), ResolutionStrategy::MessageWatch);
}

#[test]
fn terminal_is_the_default_strategy() {
    assert_eq!(select_strategy(&None, false), ResolutionStrategy::InteractiveTerminal);
}

#[test]
fn bare_layer_token_excludes_every_file_of_the_layer() {
    let tokens = vec![String::from("modFoo")];
    assert!(is_excluded(&tokens, "modFoo", "a/b.ws"));
    assert!(is_excluded(&tokens, "modFoo", "other.ws"));
    assert!(!is_excluded(&tokens, "modBar", "a/b.ws"));
}

#[test]
fn file_token_excludes_exactly_that_file() {
    let tokens = vec![String::from("modFoo:a/b.ws")];
    assert!(is_excluded(&tokens, "modFoo", "a/b.ws"));
    assert!(!is_excluded(&tokens, "modFoo", "a/c.ws"));
    assert!(!is_excluded(&tokens, "modBar", "a/b.ws"));
}

#[test]
fn empty_exclusion_list_excludes_nothing() {
    let tokens: Vec<String> = Vec::new();
    assert!(!is_excluded(&tokens, "modFoo", "a/b.ws"));
}

#[test]
fn layer_directories_start_with_the_prefix() {
    assert!(is_layer_dir_name("modFoo"));
    assert!(is_layer_dir_name("mod"));
    assert!(!is_layer_dir_name("mo"));
    assert!(!is_layer_dir_name("Module"));
    assert!(!is_layer_dir_name("DLCmod"));
}
