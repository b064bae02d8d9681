use daylog::editor::EditorSearch;
use daylog::failure::Failure;

fn run(preferred: Option<&str>, starts: &[bool]) -> (Vec<String>, Option<String>, bool) {
    let mut search = EditorSearch::new(preferred);
    let mut tried = Vec::new();
    let mut attempts = starts.iter();
    while let Some(command) = search.command() {
        tried.push(command.to_string());
        let started = *attempts.next().unwrap();
        search.attempt_ended(started);
    }
    (tried, search.started().map(|name| name.to_string()), search.failure() == Some(Failure::ChildProcess))
}

#[test]
fn the_users_editor_is_tried_first() {
    let search = EditorSearch::new(Some("nano"));
    assert_eq!(search.command(), Some("nano"));
    assert_eq!(search.started(), None);
    assert_eq!(search.failure(), None);
}

#[test]
fn without_a_choice_vim_is_tried_first() {
    let search = EditorSearch::new(None);
    assert_eq!(search.command(), Some("vim"));
}

#[test]
fn the_first_editor_that_starts_is_used() {
    assert_eq!(run(Some("nano"), &[true]), (vec!["nano".to_string()], Some("nano".to_string()), false));
    assert_eq!(
        run(Some("nano"), &[false, true]),
        (vec!["nano".to_string(), "vim".to_string()], Some("vim".to_string()), false)
    );
    assert_eq!(
        run(Some("nano"), &[false, false, true]),
        (vec!["nano".to_string(), "vim".to_string(), "vi".to_string()], Some("vi".to_string()), false)
    );
    assert_eq!(run(None, &[false, true]), (vec!["vim".to_string(), "vi".to_string()], Some("vi".to_string()), false));
}

#[test]
fn the_search_gives_up_when_nothing_starts() {
    assert_eq!(
        run(Some("nano"), &[false, false, false]),
        (vec!["nano".to_string(), "vim".to_string(), "vi".to_string()], None, true)
    );
    assert_eq!(run(None, &[false, false]), (vec!["vim".to_string(), "vi".to_string()], None, true));
}

#[test]
fn an_empty_choice_is_still_a_candidate() {
    assert_eq!(
        run(Some(""), &[false, true]),
        (vec!["".to_string(), "vim".to_string()], Some("vim".to_string()), false)
    );
}

#[test]
fn a_search_that_has_ended_stays_as_it_is() {
    let mut search = EditorSearch::new(None);
    search.attempt_ended(true);
    assert_eq!(search.started(), Some("vim"));
    search.attempt_ended(false);
    search.attempt_ended(true);
    assert_eq!(search.started(), Some("vim"));
    assert_eq!(search.command(), None);
    assert_eq!(search.failure(), None);

    let mut none = EditorSearch::new(None);
    none.attempt_ended(false);
    none.attempt_ended(false);
    assert_eq!(none.failure(), Some(Failure::ChildProcess));
    none.attempt_ended(true);
    assert_eq!(none.failure(), Some(Failure::ChildProcess));
    assert_eq!(none.started(), None);
    assert_eq!(none.command(), None);
}
