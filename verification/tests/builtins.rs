use c_shell::builtins::{dispatch, Action, HELP};
use c_shell::error::ShellError;
use c_shell::variables::ShellState;

fn argv(items: &[&str]) -> Vec<String> {
    items.iter().map(|s| s.to_string()).collect()
}

#[test]
fn empty_vector_is_a_no_op() {
    let mut state = ShellState::new();
    assert_eq!(dispatch(&mut state, "/home/me", argv(&[])), Action::Nothing);
}

#[test]
fn empty_first_token_is_a_no_op() {
    let mut state = ShellState::new();
    assert_eq!(dispatch(&mut state, "/home/me", argv(&[""])), Action::Nothing);
    assert_eq!(dispatch(&mut state, "/home/me", argv(&["", "cd", "x"])), Action::Nothing);
}

#[test]
fn help_shows_the_usage_text() {
    let mut state = ShellState::new();
    assert_eq!(dispatch(&mut state, "/home/me", argv(&["help"])), Action::Help);
    assert_eq!(dispatch(&mut state, "/home/me", argv(&["help", "cd"])), Action::Help);
    for word in ["help", "cd", "set", "exit", "quit"] {
        assert!(HELP.contains(word), "usage text lacks {}", word);
    }
}

#[test]
fn cd_with_one_argument_changes_to_it() {
    let mut state = ShellState::new();
    assert_eq!(
        dispatch(&mut state, "/home/me", argv(&["cd", "/tmp"])),
        Action::ChangeDirectory { path: "/tmp".to_string() }
    );
    assert_eq!(
        dispatch(&mut state, "/home/me", argv(&["cd", ".."])),
        Action::ChangeDirectory { path: "..".to_string() }
    );
}

#[test]
fn cd_without_argument_changes_to_home() {
    let mut state = ShellState::new();
    assert_eq!(
        dispatch(&mut state, "/home/me", argv(&["cd"])),
        Action::ChangeDirectory { path: "/home/me".to_string() }
    );
}

#[test]
fn cd_with_two_arguments_is_an_error_and_changes_nothing() {
    let mut state = ShellState::new();
    assert_eq!(
        dispatch(&mut state, "/home/me", argv(&["cd", "a", "b"])),
        Action::Report { error: ShellError::InvalidCd }
    );
    assert_eq!(
        dispatch(&mut state, "/home/me", argv(&["cd", "a", "b", "c"])),
        Action::Report { error: ShellError::InvalidCd }
    );
}

#[test]
fn exit_and_quit_end_the_shell_with_code_zero() {
    let mut state = ShellState::new();
    assert_eq!(dispatch(&mut state, "/", argv(&["exit"])), Action::Exit { code: 0 });
    assert_eq!(dispatch(&mut state, "/", argv(&["quit"])), Action::Exit { code: 0 });
    assert_eq!(dispatch(&mut state, "/", argv(&["exit", "3"])), Action::Exit { code: 0 });
}

#[test]
fn set_stores_the_value() {
    let mut state = ShellState::new();
    assert_eq!(dispatch(&mut state, "/", argv(&["set", "X", "1"])), Action::Nothing);
    assert_eq!(state.get_variable("X"), Some("1".to_string()));
}

#[test]
fn set_overwrites_the_value() {
    let mut state = ShellState::new();
    dispatch(&mut state, "/", argv(&["set", "X", "1"]));
    dispatch(&mut state, "/", argv(&["set", "Y", "other"]));
    assert_eq!(dispatch(&mut state, "/", argv(&["set", "X", "2"])), Action::Nothing);
    assert_eq!(state.get_variable("X"), Some("2".to_string()));
    assert_eq!(state.get_variable("Y"), Some("other".to_string()));
}

#[test]
fn set_with_another_number_of_parts_is_an_error_and_changes_nothing() {
    let mut state = ShellState::new();
    state.set_variable("X", "kept");
    for line in [&["set"][..], &["set", "X"], &["set", "X", "1", "2"], &["set", "X", "1", "2", "3"]] {
        assert_eq!(
            dispatch(&mut state, "/", argv(line)),
            Action::Report { error: ShellError::InvalidSet }
        );
        assert_eq!(state.get_variable("X"), Some("kept".to_string()));
        assert_eq!(state.get_variable("1"), None);
    }
}

#[test]
fn only_set_changes_the_variables() {
    let mut state = ShellState::new();
    state.set_variable("X", "kept");
    for line in [&["cd", "X"][..], &["help"], &["exit"], &["ls", "X", "1"], &["Set", "X", "1"]] {
        dispatch(&mut state, "/", argv(line));
        assert_eq!(state.get_variable("X"), Some("kept".to_string()));
    }
}

#[test]
fn other_commands_are_run_with_all_their_arguments() {
    let mut state = ShellState::new();
    assert_eq!(
        dispatch(&mut state, "/", argv(&["ls", "-l", "/tmp"])),
        Action::Run { argv: argv(&["ls", "-l", "/tmp"]) }
    );
    assert_eq!(dispatch(&mut state, "/", argv(&["./a.out"])), Action::Run { argv: argv(&["./a.out"]) });
}

#[test]
fn builtin_names_are_matched_exactly() {
    let mut state = ShellState::new();
    for name in ["CD", "cdx", "c", "Exit", "exits", "sets", "helper", "qui", " cd"] {
        assert_eq!(
            dispatch(&mut state, "/", argv(&[name, "a", "b"])),
            Action::Run { argv: argv(&[name, "a", "b"]) }
        );
    }
}
