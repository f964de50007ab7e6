use c_shell::error::ShellError;

#[test]
fn unknown_variable_message_names_the_variable() {
    let error = ShellError::UnknownVariable { name: "X".to_string() };
    assert_eq!(error.message(), "Variable 'X' not found");
    let error = ShellError::UnknownVariable { name: String::new() };
    assert_eq!(error.message(), "Variable '' not found");
}

#[test]
fn usage_messages() {
    assert_eq!(ShellError::InvalidSet.message(), "Invalid set command");
    assert_eq!(ShellError::InvalidCd.message(), "Invalid cd command");
}

#[test]
fn directory_change_message() {
    assert_eq!(ShellError::DirectoryChange.message(), "Failed to change directory");
}

#[test]
fn spawn_message() {
    assert_eq!(ShellError::Spawn.message(), "Fork failed");
}

#[test]
fn exec_message_gives_the_command_and_the_reason() {
    let error = ShellError::Exec {
        command: "nosuch".to_string(),
        reason: "No such file or directory".to_string(),
    };
    assert_eq!(error.message(), "nosuch: No such file or directory");
}

#[test]
fn failure_message_gives_the_exit_code() {
    assert_eq!(
        ShellError::CommandFailed { code: 7 }.message(),
        "Command execution failed (exit status 7)"
    );
    assert_eq!(
        ShellError::CommandFailed { code: 255 }.message(),
        "Command execution failed (exit status 255)"
    );
}

#[test]
fn kill_message_gives_the_signal() {
    assert_eq!(
        ShellError::CommandKilled { signal: 9 }.message(),
        "Command execution failed (signal 9)"
    );
    assert_eq!(
        ShellError::CommandKilled { signal: 11 }.message(),
        "Command execution failed (signal 11)"
    );
}
