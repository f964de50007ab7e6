use c_shell::variables::ShellState;

#[test]
fn new_state_has_no_variable() {
    let state = ShellState::new();
    assert_eq!(state.get_variable("X"), None);
    assert_eq!(state.get_variable(""), None);
    assert_eq!(state.get_variable("PATH"), None);
}

#[test]
fn variable_has_the_value_it_was_set_to() {
    let mut state = ShellState::new();
    state.set_variable("X", "v");
    assert_eq!(state.get_variable("X"), Some("v".to_string()));
}

#[test]
fn last_write_wins() {
    let mut state = ShellState::new();
    state.set_variable("X", "1");
    state.set_variable("X", "2");
    assert_eq!(state.get_variable("X"), Some("2".to_string()));
    state.set_variable("X", "");
    assert_eq!(state.get_variable("X"), Some(String::new()));
}

#[test]
fn setting_one_name_leaves_the_others() {
    let mut state = ShellState::new();
    state.set_variable("A", "1");
    state.set_variable("B", "2");
    state.set_variable("C", "3");
    state.set_variable("B", "two");
    assert_eq!(state.get_variable("A"), Some("1".to_string()));
    assert_eq!(state.get_variable("B"), Some("two".to_string()));
    assert_eq!(state.get_variable("C"), Some("3".to_string()));
    assert_eq!(state.get_variable("D"), None);
}

#[test]
fn names_are_compared_exactly() {
    let mut state = ShellState::new();
    state.set_variable("x", "lower");
    state.set_variable("X", "upper");
    state.set_variable("X ", "spaced");
    assert_eq!(state.get_variable("x"), Some("lower".to_string()));
    assert_eq!(state.get_variable("X"), Some("upper".to_string()));
    assert_eq!(state.get_variable("X "), Some("spaced".to_string()));
    assert_eq!(state.get_variable(" X"), None);
}

#[test]
fn empty_name_is_a_name() {
    let mut state = ShellState::new();
    state.set_variable("", "nothing");
    assert_eq!(state.get_variable(""), Some("nothing".to_string()));
}
