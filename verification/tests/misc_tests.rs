use hermit_shell::builtin::{env_lines, help_lines, run_builtin};
use hermit_shell::color::Colors;
use hermit_shell::executor::{execute_command, Action};
use hermit_shell::shell::ShellInstance;
use hermit_shell::shellcommand::{BuiltinCommand, ShellCommand};
use hermit_shell::strmap::StrMap;
use hermit_shell::strutil::{is_alnum, is_space, is_var, str_eq};

fn strings(items: &[&str]) -> Vec<String> {
    items.iter().map(|s| s.to_string()).collect()
}

#[test]
fn color_codes() {
    assert_eq!(Colors::Reset.to_string(), "\x1b[0m");
    assert_eq!(Colors::Red.to_string(), "\x1b[31m");
    assert_eq!(Colors::Green.to_string(), "\x1b[32m");
    assert_eq!(Colors::Yellow.to_string(), "\x1b[33m");
    assert_eq!(Colors::Blue.to_string(), "\x1b[34m");
    assert_eq!(Colors::Magenta.to_string(), "\x1b[35m");
    assert_eq!(Colors::Cyan.to_string(), "\x1b[36m");
    assert_eq!(Colors::White.to_string(), "\x1b[37m");
}

#[test]
fn whitespace_class_is_the_white_space_set() {
    let spaces = [
        '\u{0009}', '\u{000A}', '\u{000B}', '\u{000C}', '\u{000D}', '\u{0020}', '\u{0085}',
        '\u{00A0}', '\u{1680}', '\u{2000}', '\u{2001}', '\u{2002}', '\u{2003}', '\u{2004}',
        '\u{2005}', '\u{2006}', '\u{2007}', '\u{2008}', '\u{2009}', '\u{200A}', '\u{2028}',
        '\u{2029}', '\u{202F}', '\u{205F}', '\u{3000}',
    ];
    for c in spaces {
        assert!(is_space(c), "{:?} must count as whitespace", c);
        assert!(c.is_whitespace());
    }
    for c in ['a', '0', '_', '$', '\u{200B}', '\u{00DC}'] {
        assert!(!is_space(c), "{:?} must not count as whitespace", c);
        assert!(!c.is_whitespace());
    }
}

#[test]
fn variable_name_class_is_alphanumeric_or_underscore() {
    for c in ['a', 'Z', '0', '9', '_', '\u{00DC}', '\u{00E9}'] {
        assert!(is_var(c), "{:?} must be a name character", c);
    }
    for c in ['$', '-', ' ', '!', '.', '\u{20AC}'] {
        assert!(!is_var(c), "{:?} must not be a name character", c);
    }
    assert!(is_alnum('\u{00DC}'));
    assert!(!is_alnum('_'));
    assert!(!is_alnum('\u{20AC}'));
}

#[test]
fn str_eq_compares_by_text() {
    assert!(str_eq("", ""));
    assert!(str_eq("abc", "abc"));
    assert!(!str_eq("abc", "abd"));
    assert!(!str_eq("abc", "ab"));
}

#[test]
fn help_lines_match_the_builtin_surface() {
    let lines = help_lines();
    assert_eq!(
        lines,
        strings(&[
            "HERMIT Shell - Available Commands:",
            "  exit        - Exit the shell",
            "  cd <dir>    - Change directory",
            "  echo <msg>  - Print message",
            "  set <var> <value> - Set environment variable",
            "  unset <var> - Unset environment variable",
            "  env         - Show all environment variables",
            "  alias <name> <command> - Create an alias",
            "  help        - Show this help message",
            "  history     - Show command history",
        ])
    );
}

#[test]
fn env_lines_format_pairs_in_storage_order() {
    let mut vars = StrMap::new();
    vars.insert("A".to_string(), "1".to_string());
    vars.insert("B".to_string(), "x y".to_string());
    assert_eq!(env_lines(&vars), strings(&["A=1", "B=x y"]));
}

#[test]
fn run_builtin_set_and_alias_mutate_their_tables() {
    let mut env = StrMap::new();
    let mut aliases = StrMap::new();
    let a = run_builtin(
        BuiltinCommand::SetEnv("K".to_string(), "v".to_string()),
        &mut env,
        &mut aliases,
    );
    assert!(matches!(a, Action::Nothing));
    assert_eq!(env.get("K").map(String::as_str), Some("v"));
    assert_eq!(aliases.len(), 0);

    let a = run_builtin(
        BuiltinCommand::Alias("g".to_string(), "git".to_string()),
        &mut env,
        &mut aliases,
    );
    assert!(matches!(a, Action::Nothing));
    assert_eq!(aliases.get("g").map(String::as_str), Some("git"));

    let a = run_builtin(BuiltinCommand::UnsetEnv("K".to_string()), &mut env, &mut aliases);
    assert!(matches!(a, Action::Nothing));
    assert!(env.get("K").is_none());
}

#[test]
fn run_builtin_echo_and_exit_yield_their_actions() {
    let mut env = StrMap::new();
    let mut aliases = StrMap::new();
    match run_builtin(BuiltinCommand::Echo("hi there".to_string()), &mut env, &mut aliases) {
        Action::Print(lines) => assert_eq!(lines, strings(&["hi there"])),
        other => panic!("expected printed output, got {:?}", other),
    }
    assert!(matches!(
        run_builtin(BuiltinCommand::Exit, &mut env, &mut aliases),
        Action::Exit
    ));
    match run_builtin(BuiltinCommand::Cd("/tmp".to_string()), &mut env, &mut aliases) {
        Action::Chdir(target) => assert_eq!(target, "/tmp"),
        other => panic!("expected a directory change, got {:?}", other),
    }
}

#[test]
fn execute_command_hands_external_tokens_through() {
    let mut shell = ShellInstance::new();
    let tokens = strings(&["cat", "file.txt"]);
    match execute_command(ShellCommand::External(), tokens.clone(), &mut shell) {
        Action::RunExternal(out) => assert_eq!(out, tokens),
        other => panic!("expected an external command, got {:?}", other),
    }
}

#[test]
fn execute_command_dispatches_builtins() {
    let mut shell = ShellInstance::new();
    let a = execute_command(
        ShellCommand::Builtin(BuiltinCommand::SetEnv("X".to_string(), "7".to_string())),
        strings(&["set", "X", "7"]),
        &mut shell,
    );
    assert!(matches!(a, Action::Nothing));
    assert_eq!(shell.env_vars.get("X").map(String::as_str), Some("7"));
}
