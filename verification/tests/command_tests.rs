use hermit_shell::shellcommand::{BuiltinCommand, ShellCommand, ShellError};

fn strings(items: &[&str]) -> Vec<String> {
    items.iter().map(|s| s.to_string()).collect()
}

#[test]
fn classify_exit() {
    match ShellCommand::from_tokens(&strings(&["exit"])) {
        Ok(ShellCommand::Builtin(BuiltinCommand::Exit)) => {}
        other => panic!("unexpected classification: {:?}", other),
    }
}

#[test]
fn classify_cd_with_target() {
    match ShellCommand::from_tokens(&strings(&["cd", "/tmp"])) {
        Ok(ShellCommand::Builtin(BuiltinCommand::Cd(target))) => assert_eq!(target, "/tmp"),
        other => panic!("unexpected classification: {:?}", other),
    }
}

#[test]
fn classify_cd_defaults_to_current_directory() {
    match ShellCommand::from_tokens(&strings(&["cd"])) {
        Ok(ShellCommand::Builtin(BuiltinCommand::Cd(target))) => assert_eq!(target, "."),
        other => panic!("unexpected classification: {:?}", other),
    }
}

#[test]
fn classify_echo_joins_arguments() {
    match ShellCommand::from_tokens(&strings(&["echo", "a b", "c"])) {
        Ok(ShellCommand::Builtin(BuiltinCommand::Echo(message))) => assert_eq!(message, "a b c"),
        other => panic!("unexpected classification: {:?}", other),
    }
}

#[test]
fn classify_echo_without_arguments() {
    match ShellCommand::from_tokens(&strings(&["echo"])) {
        Ok(ShellCommand::Builtin(BuiltinCommand::Echo(message))) => assert_eq!(message, ""),
        other => panic!("unexpected classification: {:?}", other),
    }
}

#[test]
fn classify_history_help_env() {
    assert!(matches!(
        ShellCommand::from_tokens(&strings(&["history"])),
        Ok(ShellCommand::Builtin(BuiltinCommand::History))
    ));
    assert!(matches!(
        ShellCommand::from_tokens(&strings(&["help"])),
        Ok(ShellCommand::Builtin(BuiltinCommand::Help))
    ));
    assert!(matches!(
        ShellCommand::from_tokens(&strings(&["env"])),
        Ok(ShellCommand::Builtin(BuiltinCommand::Env()))
    ));
}

#[test]
fn classify_set_with_value_rest_joined() {
    match ShellCommand::from_tokens(&strings(&["set", "GREETING", "hello", "world"])) {
        Ok(ShellCommand::Builtin(BuiltinCommand::SetEnv(name, value))) => {
            assert_eq!(name, "GREETING");
            assert_eq!(value, "hello world");
        }
        other => panic!("unexpected classification: {:?}", other),
    }
}

#[test]
fn classify_set_with_too_few_tokens_fails() {
    match ShellCommand::from_tokens(&strings(&["set", "FOO"])) {
        Err(ShellError::MissingArguments(name)) => assert_eq!(name, "set"),
        other => panic!("unexpected classification: {:?}", other),
    }
    assert!(matches!(
        ShellCommand::from_tokens(&strings(&["set"])),
        Err(ShellError::MissingArguments(_))
    ));
}

#[test]
fn classify_alias_and_its_missing_arguments() {
    match ShellCommand::from_tokens(&strings(&["alias", "greet", "echo", "hi"])) {
        Ok(ShellCommand::Builtin(BuiltinCommand::Alias(name, value))) => {
            assert_eq!(name, "greet");
            assert_eq!(value, "echo hi");
        }
        other => panic!("unexpected classification: {:?}", other),
    }
    match ShellCommand::from_tokens(&strings(&["alias", "greet"])) {
        Err(ShellError::MissingArguments(name)) => assert_eq!(name, "alias"),
        other => panic!("unexpected classification: {:?}", other),
    }
}

#[test]
fn classify_unset_and_its_missing_arguments() {
    match ShellCommand::from_tokens(&strings(&["unset", "FOO"])) {
        Ok(ShellCommand::Builtin(BuiltinCommand::UnsetEnv(name))) => assert_eq!(name, "FOO"),
        other => panic!("unexpected classification: {:?}", other),
    }
    match ShellCommand::from_tokens(&strings(&["unset"])) {
        Err(ShellError::MissingArguments(name)) => assert_eq!(name, "unset"),
        other => panic!("unexpected classification: {:?}", other),
    }
}

#[test]
fn classify_empty_token_sequence() {
    assert!(matches!(
        ShellCommand::from_tokens(&Vec::new()),
        Err(ShellError::EmptyCommand)
    ));
}

#[test]
fn classify_unrecognized_command_as_external() {
    assert!(matches!(
        ShellCommand::from_tokens(&strings(&["ls", "-la"])),
        Ok(ShellCommand::External())
    ));
    // a quoted or oddly cased name is not a built-in
    assert!(matches!(
        ShellCommand::from_tokens(&strings(&["Echo", "x"])),
        Ok(ShellCommand::External())
    ));
}

#[test]
fn error_messages() {
    assert_eq!(ShellError::EmptyCommand.message(), "No command provided");
    assert_eq!(
        ShellError::MissingArguments("set".to_string()).message(),
        "Missing arguments for 'set' command"
    );
}
