use hermit_shell::helpers::expand_env_vars;
use hermit_shell::strmap::StrMap;

fn strings(items: &[&str]) -> Vec<String> {
    items.iter().map(|s| s.to_string()).collect()
}

fn env(pairs: &[(&str, &str)]) -> StrMap {
    let mut m = StrMap::new();
    for (k, v) in pairs {
        m.insert(k.to_string(), v.to_string());
    }
    m
}

#[test]
fn expands_bound_variable() {
    let env = env(&[("USER", "alice")]);
    let (tokens, warnings) = expand_env_vars(strings(&["$USER"]), &env);
    assert_eq!(tokens, strings(&["alice"]));
    assert!(warnings.is_empty());
}

#[test]
fn unbound_variable_stays_and_warns() {
    let env = env(&[("USER", "alice")]);
    let (tokens, warnings) = expand_env_vars(strings(&["$USERNAME"]), &env);
    assert_eq!(tokens, strings(&["$USERNAME"]));
    assert_eq!(warnings, strings(&["USERNAME"]));
}

#[test]
fn longest_name_wins() {
    // $FOOBAR must never be read as $FOO followed by BAR
    let env = env(&[("FOO", "1"), ("FOOBAR", "2")]);
    let (tokens, warnings) = expand_env_vars(strings(&["$FOOBAR"]), &env);
    assert_eq!(tokens, strings(&["2"]));
    assert!(warnings.is_empty());
}

#[test]
fn unbound_longer_name_is_not_partially_matched() {
    // FOO is bound but the reference reads $FOOBAR, which is not
    let env = env(&[("FOO", "1")]);
    let (tokens, warnings) = expand_env_vars(strings(&["$FOOBAR"]), &env);
    assert_eq!(tokens, strings(&["$FOOBAR"]));
    assert_eq!(warnings, strings(&["FOOBAR"]));
}

#[test]
fn expands_inside_multiword_token() {
    // a quoted token that now holds spaces is still scanned as one token
    let env = env(&[("USER", "alice")]);
    let (tokens, warnings) = expand_env_vars(strings(&["$USER is $USERNAME"]), &env);
    assert_eq!(tokens, strings(&["alice is $USERNAME"]));
    assert_eq!(warnings, strings(&["USERNAME"]));
}

#[test]
fn name_ends_at_first_special_character() {
    let env = env(&[("FOO", "1")]);
    let (tokens, warnings) = expand_env_vars(strings(&["$FOO!rest", "x=$FOO.y"]), &env);
    assert_eq!(tokens, strings(&["1!rest", "x=1.y"]));
    assert!(warnings.is_empty());
}

#[test]
fn lone_dollar_is_ordinary_text() {
    let env = env(&[("FOO", "1")]);
    let (tokens, warnings) = expand_env_vars(strings(&["$", "a$", "$ b"]), &env);
    assert_eq!(tokens, strings(&["$", "a$", "$ b"]));
    assert!(warnings.is_empty());
}

#[test]
fn value_is_not_rescanned() {
    // expansion does not recurse into the substituted value
    let env = env(&[("A", "$B"), ("B", "two")]);
    let (tokens, warnings) = expand_env_vars(strings(&["$A"]), &env);
    assert_eq!(tokens, strings(&["$B"]));
    assert!(warnings.is_empty());
}

#[test]
fn several_references_in_one_token() {
    let env = env(&[("A", "1"), ("B", "2")]);
    let (tokens, warnings) = expand_env_vars(strings(&["$A-$B-$C"]), &env);
    assert_eq!(tokens, strings(&["1-2-$C"]));
    assert_eq!(warnings, strings(&["C"]));
}

#[test]
fn unicode_letters_belong_to_variable_names() {
    // the name class is Unicode alphanumeric plus underscore
    let env = env(&[("\u{00DC}SER", "otto")]);
    let (tokens, warnings) = expand_env_vars(strings(&["$\u{00DC}SER"]), &env);
    assert_eq!(tokens, strings(&["otto"]));
    assert!(warnings.is_empty());

    let empty = StrMap::new();
    let (tokens, warnings) = expand_env_vars(strings(&["$\u{00DC}SER"]), &empty);
    assert_eq!(tokens, strings(&["$\u{00DC}SER"]));
    assert_eq!(warnings, strings(&["\u{00DC}SER"]));
}

#[test]
fn tokens_without_references_pass_through() {
    let env = env(&[]);
    let (tokens, warnings) = expand_env_vars(strings(&["plain", "words"]), &env);
    assert_eq!(tokens, strings(&["plain", "words"]));
    assert!(warnings.is_empty());
}
