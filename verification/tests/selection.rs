use moin_dm::selection::Selection;
use moin_dm::setup::Setup;

#[test]
fn a_new_selection_is_empty() {
    let selection = Selection::new();
    assert!(selection.needs_login());
    assert_eq!(selection.username(), None);
    assert_eq!(selection.setup(), None);
    assert!(!selection.has_setup());
    assert!(!selection.is_complete());
}

#[test]
fn a_selection_with_login_needs_both_choices() {
    let mut selection = Selection::new();
    selection.set_username(String::from("alice"));
    assert_eq!(selection.username(), Some("alice"));
    assert!(!selection.is_complete());
    selection.set_setup(Setup::fallback());
    assert!(selection.has_setup());
    assert!(selection.is_complete());
}

#[test]
fn a_setup_alone_does_not_complete_a_login() {
    let mut selection = Selection::new();
    selection.set_setup(Setup::fallback());
    assert!(selection.has_setup());
    assert!(!selection.is_complete());
}

#[test]
fn without_login_the_setup_alone_completes() {
    let mut selection = Selection::without_login();
    assert!(!selection.needs_login());
    assert!(!selection.is_complete());
    selection.set_setup(Setup::new(String::from("X"), Some(String::from("xterm"))));
    assert!(selection.is_complete());
    assert_eq!(selection.username(), None);
}

#[test]
fn a_later_choice_replaces_an_earlier_one() {
    let mut selection = Selection::new();
    selection.set_username(String::from("alice"));
    selection.set_username(String::from("bob"));
    selection.set_setup(Setup::fallback());
    selection.set_setup(Setup::new(String::from("X"), Some(String::from("xterm"))));
    assert_eq!(selection.username(), Some("bob"));
    assert_eq!(selection.setup().map(|s| s.name()), Some("X"));
    assert_eq!(selection.setup().and_then(|s| s.command_text()), Some("xterm"));
}

#[test]
fn choosing_one_thing_leaves_the_other() {
    let mut selection = Selection::new();
    selection.set_setup(Setup::fallback());
    selection.set_username(String::from("alice"));
    assert_eq!(selection.setup().map(|s| s.name()), Some("Command Line"));
    assert!(selection.needs_login());
}
