use daylog::log::{display_line, record_for, DayLog};

fn listed(bytes: &[u8]) -> Vec<String> {
    DayLog::from_bytes(bytes.to_vec()).list_nonempty_lines()
}

#[test]
fn new_log_is_empty_and_lists_nothing() {
    let log = DayLog::new();
    assert_eq!(log.as_bytes(), b"");
    assert!(log.list_nonempty_lines().is_empty());
}

#[test]
fn first_message_makes_a_file_of_one_line() {
    let mut log = DayLog::new();
    log.append_line("bought milk");
    assert_eq!(log.as_bytes(), b"bought milk\n");
    let entries = log.list_nonempty_lines();
    assert_eq!(entries, vec!["bought milk".to_string()]);
    assert_eq!(display_line(&entries[0]), "- bought milk");
}

#[test]
fn two_messages_are_listed_in_the_order_recorded() {
    let mut log = DayLog::new();
    log.append_line("a");
    log.append_line("b");
    assert_eq!(log.as_bytes(), b"a\nb\n");
    assert_eq!(log.list_nonempty_lines(), vec!["a".to_string(), "b".to_string()]);
}

#[test]
fn appended_message_is_listed_last_once_and_unaltered() {
    let messages = ["x", "  padded  ", "tab\there", "caf\u{e9} \u{4e16}\u{754c} \u{1f600}", "-", "a\rb"];
    let mut log = DayLog::from_bytes(b"earlier\n\nmore\n".to_vec());
    let mut expected = vec!["earlier".to_string(), "more".to_string()];
    for message in messages {
        let before = log.list_nonempty_lines();
        assert_eq!(before, expected);
        log.append_line(message);
        expected.push(message.to_string());
        assert_eq!(log.list_nonempty_lines(), expected);
    }
}

#[test]
fn a_message_that_is_already_there_is_listed_again() {
    let mut log = DayLog::from_bytes(b"same\n".to_vec());
    log.append_line("same");
    assert_eq!(log.list_nonempty_lines(), vec!["same".to_string(), "same".to_string()]);
}

#[test]
fn empty_message_changes_nothing() {
    let mut log = DayLog::from_bytes(b"one\ntwo\n".to_vec());
    let before = log.list_nonempty_lines();
    log.append_line("");
    assert_eq!(log.as_bytes(), b"one\ntwo\n");
    assert_eq!(log.list_nonempty_lines(), before);

    let mut empty = DayLog::new();
    empty.append_line("");
    assert_eq!(empty.as_bytes(), b"");
}

#[test]
fn a_message_of_blanks_is_a_message() {
    let mut log = DayLog::new();
    log.append_line(" ");
    assert_eq!(log.as_bytes(), b" \n");
    assert_eq!(log.list_nonempty_lines(), vec![" ".to_string()]);
}

#[test]
fn listing_twice_gives_the_same_entries() {
    let log = DayLog::from_bytes(b"a\n\nb\n\xff\nc".to_vec());
    let first = log.list_nonempty_lines();
    let second = log.list_nonempty_lines();
    assert_eq!(first, second);
    assert_eq!(first, vec!["a".to_string(), "b".to_string(), "c".to_string()]);
    assert_eq!(log.as_bytes(), b"a\n\nb\n\xff\nc");
}

#[test]
fn record_is_the_message_and_one_newline() {
    assert_eq!(record_for("bought milk"), b"bought milk\n".to_vec());
    assert_eq!(record_for("\u{e9}"), vec![0xc3, 0xa9, 0x0a]);
    assert_eq!(record_for(" "), b" \n".to_vec());
    assert_eq!(record_for(""), Vec::<u8>::new());
}

#[test]
fn blank_lines_are_not_listed() {
    assert_eq!(listed(b"\n\n\n"), Vec::<String>::new());
    assert_eq!(listed(b"\na\n\n\nb\n\n"), vec!["a".to_string(), "b".to_string()]);
    assert_eq!(listed(b""), Vec::<String>::new());
}

#[test]
fn last_line_without_newline_is_listed() {
    assert_eq!(listed(b"a\nb"), vec!["a".to_string(), "b".to_string()]);
    assert_eq!(listed(b"only"), vec!["only".to_string()]);
}

#[test]
fn unreadable_line_is_left_out_and_the_rest_is_listed() {
    assert_eq!(listed(b"ok\n\xff\xfe\nfine\n"), vec!["ok".to_string(), "fine".to_string()]);
    // a character cut short, an overlong form, a surrogate, a value past the last character
    assert_eq!(listed(b"\xc3\nx\n"), vec!["x".to_string()]);
    assert_eq!(listed(b"\xc0\x8a\nx\n"), vec!["x".to_string()]);
    assert_eq!(listed(b"\xed\xa0\x80\nx\n"), vec!["x".to_string()]);
    assert_eq!(listed(b"\xf4\x90\x80\x80\nx\n"), vec!["x".to_string()]);
    assert_eq!(listed(b"good \xff bad\n"), Vec::<String>::new());
    assert_eq!(listed(b"\xff"), Vec::<String>::new());
}

#[test]
fn readable_text_of_several_bytes_is_listed_as_text() {
    let text = "caf\u{e9} \u{4e16}\u{754c} \u{1f600}";
    let mut bytes = text.as_bytes().to_vec();
    bytes.push(b'\n');
    assert_eq!(listed(&bytes), vec![text.to_string()]);
    assert_eq!(listed(b"\xc3\xa9\n"), vec!["\u{e9}".to_string()]);
}

#[test]
fn carriage_return_is_part_of_the_line() {
    assert_eq!(listed(b"a\r\nb\r\n"), vec!["a\r".to_string(), "b\r".to_string()]);
    assert_eq!(listed(b"\r\n"), vec!["\r".to_string()]);
}

#[test]
fn message_with_a_line_feed_is_listed_as_its_lines() {
    let mut log = DayLog::new();
    log.append_line("a\nb");
    assert_eq!(log.as_bytes(), b"a\nb\n");
    assert_eq!(log.list_nonempty_lines(), vec!["a".to_string(), "b".to_string()]);
}

#[test]
fn message_behind_an_open_line_joins_it() {
    let mut log = DayLog::from_bytes(b"x".to_vec());
    log.append_line("y");
    assert_eq!(log.as_bytes(), b"xy\n");
    assert_eq!(log.list_nonempty_lines(), vec!["xy".to_string()]);
}

#[test]
fn append_keeps_what_was_there() {
    let mut log = DayLog::from_bytes(b"\xff\n\nold\n".to_vec());
    log.append_line("new");
    assert_eq!(log.as_bytes(), b"\xff\n\nold\nnew\n");
}

#[test]
fn display_line_puts_the_marker_first() {
    assert_eq!(display_line("bought milk"), "- bought milk");
    assert_eq!(display_line(""), "- ");
    assert_eq!(display_line("- x"), "- - x");
}
