use daylog::command::{join_words, plan, Action};
use daylog::failure::{exit_status, Failure, EXIT_FAILURE, EXIT_SUCCESS};

#[test]
fn no_argument_lists() {
    assert_eq!(plan(false, None), Action::List);
}

#[test]
fn a_message_is_recorded() {
    assert_eq!(plan(false, Some("bought milk")), Action::Append);
    assert_eq!(plan(false, Some(" ")), Action::Append);
}

#[test]
fn an_empty_message_is_skipped() {
    assert_eq!(plan(false, Some("")), Action::Skip);
}

#[test]
fn edit_opens_the_editor() {
    assert_eq!(plan(true, None), Action::Edit);
    assert_eq!(plan(true, Some("ignored")), Action::Edit);
    assert_eq!(plan(true, Some("")), Action::Edit);
}

#[test]
fn words_are_joined_with_single_spaces() {
    let words = vec!["bought".to_string(), "milk".to_string(), "today".to_string()];
    assert_eq!(join_words(&words), "bought milk today");
    assert_eq!(join_words(&vec!["one".to_string()]), "one");
    assert_eq!(join_words(&Vec::new()), "");
    assert_eq!(join_words(&vec!["".to_string(), "".to_string()]), " ");
    assert_eq!(join_words(&vec!["a b".to_string(), "".to_string(), "c".to_string()]), "a b  c");
}

#[test]
fn joined_words_of_nothing_are_skipped() {
    let message = join_words(&Vec::new());
    assert_eq!(plan(false, Some(&message)), Action::Skip);
}

#[test]
fn success_is_zero_and_every_failure_is_one() {
    assert_eq!(EXIT_SUCCESS, 0);
    assert_eq!(EXIT_FAILURE, 1);
    assert_eq!(exit_status(Ok(())), 0);
    assert_eq!(exit_status(Err(Failure::Configuration)), 1);
    assert_eq!(exit_status(Err(Failure::Filesystem)), 1);
    assert_eq!(exit_status(Err(Failure::ChildProcess)), 1);
}

#[test]
fn each_failure_has_its_message() {
    assert_eq!(Failure::Configuration.message(), "$HOME must be set");
    assert_eq!(
        Failure::ChildProcess.message(),
        "Failed to start editor. Ensure $EDITOR is set or vim is installed."
    );
    assert_eq!(
        Failure::Filesystem.message(),
        "The log file or its directory could not be created, opened, read or written."
    );
}
