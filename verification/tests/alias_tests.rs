use hermit_shell::alias::{resolve_aliases, split_ws};
use hermit_shell::strmap::StrMap;

fn strings(items: &[&str]) -> Vec<String> {
    items.iter().map(|s| s.to_string()).collect()
}

fn aliases(pairs: &[(&str, &str)]) -> StrMap {
    let mut m = StrMap::new();
    for (k, v) in pairs {
        m.insert(k.to_string(), v.to_string());
    }
    m
}

#[test]
fn split_ws_words() {
    assert_eq!(split_ws("git  status "), strings(&["git", "status"]));
    assert_eq!(split_ws(""), Vec::<String>::new());
    assert_eq!(split_ws("  \t "), Vec::<String>::new());
}

#[test]
fn split_ws_on_unicode_whitespace() {
    assert_eq!(split_ws("ls\u{00A0}-la"), strings(&["ls", "-la"]));
    assert_eq!(split_ws("\u{2028}x\u{000C}"), strings(&["x"]));
}

#[test]
fn self_referencing_alias_expands_once() {
    // `ll` maps to `ll -la`: the second `ll` is already marked expanded
    let al = aliases(&[("ll", "ll -la")]);
    let mut tokens = strings(&["ll"]);
    resolve_aliases(&mut tokens, &al);
    assert_eq!(tokens, strings(&["ll", "-la"]));
}

#[test]
fn mutual_cycle_terminates() {
    // a -> b -> a: the guard set stops the pass after each name was used once
    let al = aliases(&[("a", "b"), ("b", "a")]);
    let mut tokens = strings(&["a"]);
    resolve_aliases(&mut tokens, &al);
    assert_eq!(tokens, strings(&["a"]));
}

#[test]
fn chain_of_aliases_resolves_through() {
    let al = aliases(&[("gs", "g status"), ("g", "git")]);
    let mut tokens = strings(&["gs", "-sb"]);
    resolve_aliases(&mut tokens, &al);
    assert_eq!(tokens, strings(&["git", "status", "-sb"]));
}

#[test]
fn non_alias_head_is_untouched() {
    let al = aliases(&[("ll", "ls -la")]);
    let mut tokens = strings(&["ls", "ll"]);
    resolve_aliases(&mut tokens, &al);
    // only the first token is ever rewritten
    assert_eq!(tokens, strings(&["ls", "ll"]));
}

#[test]
fn empty_expansion_stops_resolution() {
    let al = aliases(&[("nop", "   ")]);
    let mut tokens = strings(&["nop", "x"]);
    resolve_aliases(&mut tokens, &al);
    assert_eq!(tokens, strings(&["nop", "x"]));
}

#[test]
fn empty_token_sequence_is_left_alone() {
    let al = aliases(&[("a", "b")]);
    let mut tokens: Vec<String> = Vec::new();
    resolve_aliases(&mut tokens, &al);
    assert!(tokens.is_empty());
}

#[test]
fn alias_rest_of_tokens_carried_along() {
    let al = aliases(&[("greet", "echo hi")]);
    let mut tokens = strings(&["greet", "there"]);
    resolve_aliases(&mut tokens, &al);
    assert_eq!(tokens, strings(&["echo", "hi", "there"]));
}
