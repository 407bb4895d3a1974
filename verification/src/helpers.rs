//! Environment-variable expansion, and the severity levels a diagnostic can
//! carry. A reference is a `$` immediately followed by one or more
//! alphanumeric/underscore characters; the name is taken as long as possible
//! (maximal munch), so a shorter binding can never partially match inside a
//! longer reference. A bound reference is replaced by its value; an unbound
//! one is left in place and reported as a missing name, never as an error.
//! Substituted values are not scanned again.

use vstd::prelude::*;
use crate::strmap::StrMap;
use crate::strutil::{is_var, is_var_char, push_char};

verus! {

/// Severity of a diagnostic handed to the presentation layer.
pub enum LogLevel {
    Warning,
    Error,
}

/// Length of the run of variable-name characters starting at `i`.
pub open spec fn var_run_len(t: Seq<char>, i: int) -> nat
    decreases t.len() - i,
{
    if i < 0 || i >= t.len() || !is_var_char(t[i]) {
        0
    } else {
        1 + var_run_len(t, i + 1)
    }
}

proof fn lemma_var_run_len_bound(t: Seq<char>, i: int)
    requires
        0 <= i <= t.len(),
    ensures
        i + var_run_len(t, i) <= t.len(),
        forall|j: int| i <= j < i + var_run_len(t, i) ==> is_var_char(#[trigger] t[j]),
        i + var_run_len(t, i) == t.len() || !is_var_char(t[i + var_run_len(t, i)]),
    decreases t.len() - i,
{
    if i < t.len() && is_var_char(t[i]) {
        lemma_var_run_len_bound(t, i + 1);
    }
}

/// A run is pinned down by its contents: if every character in `[i, j)` is a
/// name character and `j` sits at the end or before a non-name character,
/// then the run starting at `i` is exactly `j - i` long.
proof fn lemma_var_run_len_exact(t: Seq<char>, i: int, j: int)
    requires
        0 <= i <= j <= t.len(),
        forall|k: int| i <= k < j ==> is_var_char(#[trigger] t[k]),
        j == t.len() || !is_var_char(t[j]),
    ensures
        var_run_len(t, i) == j - i,
    decreases j - i,
{
    if i < j {
        lemma_var_run_len_exact(t, i + 1, j);
    }
}

/// Whether position `i` starts a variable reference.
pub open spec fn starts_var(t: Seq<char>, i: int) -> bool {
    t[i] == '$' && i + 1 < t.len() && is_var_char(t[i + 1])
}

/// The expansion of `t` from position `i` on: references to bound names are
/// replaced by their values, unbound references and ordinary characters are
/// copied through.
pub open spec fn spec_expand_from(t: Seq<char>, i: int, env: Map<Seq<char>, Seq<char>>) -> Seq<char>
    decreases t.len() - i,
    via spec_expand_from_decreases
{
    if i < 0 || i >= t.len() {
        Seq::empty()
    } else if starts_var(t, i) {
        let next = i + 1 + var_run_len(t, i + 1);
        let name = t.subrange(i + 1, next);
        if env.contains_key(name) {
            env[name] + spec_expand_from(t, next, env)
        } else {
            t.subrange(i, next) + spec_expand_from(t, next, env)
        }
    } else {
        seq![t[i]] + spec_expand_from(t, i + 1, env)
    }
}

#[via_fn]
proof fn spec_expand_from_decreases(t: Seq<char>, i: int, env: Map<Seq<char>, Seq<char>>) {
    if 0 <= i < t.len() && starts_var(t, i) {
        lemma_var_run_len_bound(t, i + 1);
    }
}

/// The expansion of a whole token.
pub open spec fn spec_expand(t: Seq<char>, env: Map<Seq<char>, Seq<char>>) -> Seq<char> {
    spec_expand_from(t, 0, env)
}

/// The names referenced from position `i` on that are not bound in `env`,
/// in the order they occur.
pub open spec fn spec_missing_from(t: Seq<char>, i: int, env: Map<Seq<char>, Seq<char>>) -> Seq<
    Seq<char>,
>
    decreases t.len() - i,
    via spec_missing_from_decreases
{
    if i < 0 || i >= t.len() {
        Seq::empty()
    } else if starts_var(t, i) {
        let next = i + 1 + var_run_len(t, i + 1);
        let name = t.subrange(i + 1, next);
        if env.contains_key(name) {
            spec_missing_from(t, next, env)
        } else {
            seq![name] + spec_missing_from(t, next, env)
        }
    } else {
        spec_missing_from(t, i + 1, env)
    }
}

#[via_fn]
proof fn spec_missing_from_decreases(t: Seq<char>, i: int, env: Map<Seq<char>, Seq<char>>) {
    if 0 <= i < t.len() && starts_var(t, i) {
        lemma_var_run_len_bound(t, i + 1);
    }
}

/// The unbound names a whole token references.
pub open spec fn spec_missing(t: Seq<char>, env: Map<Seq<char>, Seq<char>>) -> Seq<Seq<char>> {
    spec_missing_from(t, 0, env)
}

/// A token that is exactly one reference to a bound variable expands to
/// exactly the variable's value, however long the name is: the reference is
/// read with maximal munch, so no shorter binding can match a prefix of it.
/// No missing name is reported.
pub proof fn lemma_expand_bound_var(name: Seq<char>, env: Map<Seq<char>, Seq<char>>)
    requires
        name.len() > 0,
        forall|k: int| 0 <= k < name.len() ==> is_var_char(#[trigger] name[k]),
        env.contains_key(name),
    ensures
        spec_expand(seq!['$'] + name, env) == env[name],
        spec_missing(seq!['$'] + name, env) == Seq::<Seq<char>>::empty(),
{
    let t = seq!['$'] + name;
    assert(t[0] == '$');
    assert(forall|k: int| 1 <= k < t.len() ==> is_var_char(#[trigger] t[k]));
    lemma_var_run_len_exact(t, 1, t.len() as int);
    assert(t.subrange(1, t.len() as int) =~= name);
    assert(spec_expand_from(t, t.len() as int, env) == Seq::<char>::empty());
    assert(spec_expand_from(t, 0, env) == env[name] + spec_expand_from(t, t.len() as int, env));
    assert(env[name] + Seq::<char>::empty() =~= env[name]);
    assert(spec_missing_from(t, t.len() as int, env) == Seq::<Seq<char>>::empty());
    assert(spec_missing_from(t, 0, env) == spec_missing_from(t, t.len() as int, env));
}

/// A token that is exactly one reference to an unbound variable is left
/// unchanged, and that one name is reported as missing — even when some
/// proper prefix of the name is bound.
pub proof fn lemma_expand_unbound_var(name: Seq<char>, env: Map<Seq<char>, Seq<char>>)
    requires
        name.len() > 0,
        forall|k: int| 0 <= k < name.len() ==> is_var_char(#[trigger] name[k]),
        !env.contains_key(name),
    ensures
        spec_expand(seq!['$'] + name, env) == seq!['$'] + name,
        spec_missing(seq!['$'] + name, env) == seq![name],
{
    let t = seq!['$'] + name;
    assert(t[0] == '$');
    assert(forall|k: int| 1 <= k < t.len() ==> is_var_char(#[trigger] t[k]));
    lemma_var_run_len_exact(t, 1, t.len() as int);
    assert(t.subrange(1, t.len() as int) =~= name);
    assert(t.subrange(0, t.len() as int) =~= t);
    assert(spec_expand_from(t, t.len() as int, env) == Seq::<char>::empty());
    assert(spec_expand_from(t, 0, env) == t.subrange(0, t.len() as int) + spec_expand_from(
        t,
        t.len() as int,
        env,
    ));
    assert(t + Seq::<char>::empty() =~= t);
    assert(spec_missing_from(t, t.len() as int, env) == Seq::<Seq<char>>::empty());
    assert(spec_missing_from(t, 0, env) == seq![name] + spec_missing_from(
        t,
        t.len() as int,
        env,
    ));
    assert(seq![name] + Seq::<Seq<char>>::empty() =~= seq![name]);
}

/// Setting a variable and then referencing it reads the value back: after
/// `name` is bound to `value`, the token `$name` expands to exactly `value`.
pub proof fn lemma_set_then_expand(
    name: Seq<char>,
    value: Seq<char>,
    env: Map<Seq<char>, Seq<char>>,
)
    requires
        name.len() > 0,
        forall|k: int| 0 <= k < name.len() ==> is_var_char(#[trigger] name[k]),
    ensures
        spec_expand(seq!['$'] + name, env.insert(name, value)) == value,
{
    lemma_expand_bound_var(name, env.insert(name, value));
}

/// Expands the variable references of one token.
fn expand_token(t: &str, env: &StrMap) -> (r: (String, Vec<String>))
    requires
        env.inv(),
    ensures
        r.0@ == spec_expand(t@, env@),
        r.1.deep_view() == spec_missing(t@, env@),
{
    let n = t.unicode_len();
    let mut out = String::new();
    let mut missing: Vec<String> = Vec::new();
    let mut i: usize = 0;
    proof {
        assert(Seq::<char>::empty() + spec_expand_from(t@, 0, env@) =~= spec_expand_from(
            t@,
            0,
            env@,
        ));
        assert(Seq::<Seq<char>>::empty() + spec_missing_from(t@, 0, env@) =~= spec_missing_from(
            t@,
            0,
            env@,
        ));
        assert(missing.deep_view() =~= Seq::<Seq<char>>::empty());
    }
    while i < n
        invariant
            env.inv(),
            n == t@.len(),
            i <= n,
            spec_expand(t@, env@) == out@ + spec_expand_from(t@, i as int, env@),
            spec_missing(t@, env@) == missing.deep_view() + spec_missing_from(
                t@,
                i as int,
                env@,
            ),
        decreases n - i,
    {
        let ghost ii = i as int;
        let ghost prev_out = out@;
        let ghost prev_missing = missing.deep_view();
        let c = t.get_char(i);
        if c == '$' && i + 1 < n && is_var(t.get_char(i + 1)) {
            // scan the name: the longest run of name characters after `$`
            let mut j: usize = i + 1;
            while j < n && is_var(t.get_char(j))
                invariant
                    n == t@.len(),
                    i + 1 <= j <= n,
                    forall|k: int| i + 1 <= k < j ==> is_var_char(#[trigger] t@[k]),
                decreases n - j,
            {
                j = j + 1;
            }
            proof {
                lemma_var_run_len_exact(t@, ii + 1, j as int);
                assert(starts_var(t@, ii));
            }
            let name = t.substring_char(i + 1, j);
            match env.get(name) {
                Some(value) => {
                    out.append(value.as_str());
                    proof {
                        assert(spec_expand_from(t@, ii, env@) == env@[name@]
                            + spec_expand_from(t@, j as int, env@));
                        assert(out@ + spec_expand_from(t@, j as int, env@) =~= prev_out
                            + spec_expand_from(t@, ii, env@));
                        assert(spec_missing_from(t@, ii, env@) == spec_missing_from(
                            t@,
                            j as int,
                            env@,
                        ));
                    }
                },
                None => {
                    out.append(t.substring_char(i, j));
                    missing.push(String::from_str(name));
                    proof {
                        assert(spec_expand_from(t@, ii, env@) == t@.subrange(ii, j as int)
                            + spec_expand_from(t@, j as int, env@));
                        assert(out@ + spec_expand_from(t@, j as int, env@) =~= prev_out
                            + spec_expand_from(t@, ii, env@));
                        assert(spec_missing_from(t@, ii, env@) == seq![name@]
                            + spec_missing_from(t@, j as int, env@));
                        assert(missing.deep_view() =~= prev_missing.push(name@));
                        assert(missing.deep_view() + spec_missing_from(t@, j as int, env@)
                            =~= prev_missing + spec_missing_from(t@, ii, env@));
                    }
                },
            }
            i = j;
        } else {
            push_char(&mut out, c);
            proof {
                assert(!starts_var(t@, ii));
                assert(spec_expand_from(t@, ii, env@) == seq![t@[ii]] + spec_expand_from(
                    t@,
                    ii + 1,
                    env@,
                ));
                assert(out@ + spec_expand_from(t@, ii + 1, env@) =~= prev_out
                    + spec_expand_from(t@, ii, env@));
            }
            i = i + 1;
        }
    }
    proof {
        assert(out@ + spec_expand_from(t@, n as int, env@) =~= out@);
        assert(missing.deep_view() + spec_missing_from(t@, n as int, env@)
            =~= missing.deep_view());
    }
    (out, missing)
}

/// Expands variable references in every token. Returns the expanded tokens
/// together with the names of the variables that were referenced but not
/// bound, for the caller to report as warnings.
pub fn expand_env_vars(tokens: Vec<String>, env_vars: &StrMap) -> (r: (Vec<String>, Vec<String>))
    requires
        env_vars.inv(),
    ensures
        r.0.deep_view() == tokens.deep_view().map_values(
            (|t: Seq<char>| spec_expand(t, env_vars@)),
        ),
        r.1.deep_view() == tokens.deep_view().flat_map(
            (|t: Seq<char>| spec_missing(t, env_vars@)),
        ),
{
    let ghost expand_fn = (|t: Seq<char>| spec_expand(t, env_vars@));
    let ghost missing_fn = (|t: Seq<char>| spec_missing(t, env_vars@));
    let n = tokens.len();
    let mut out: Vec<String> = Vec::new();
    let mut missing: Vec<String> = Vec::new();
    let mut i: usize = 0;
    while i < n
        invariant
            env_vars.inv(),
            n == tokens@.len(),
            i <= n,
            expand_fn == (|t: Seq<char>| spec_expand(t, env_vars@)),
            missing_fn == (|t: Seq<char>| spec_missing(t, env_vars@)),
            out.deep_view() =~= tokens.deep_view().take(i as int).map_values(expand_fn),
            missing.deep_view() =~= tokens.deep_view().take(i as int).flat_map(missing_fn),
        decreases n - i,
    {
        let ghost prev_out = out.deep_view();
        let ghost prev_missing = missing.deep_view();
        let (expanded, mut token_missing) = expand_token(tokens[i].as_str(), env_vars);
        let ghost expanded_view = expanded@;
        let ghost token_missing_view = token_missing.deep_view();
        out.push(expanded);
        missing.append(&mut token_missing);
        proof {
            let tv = tokens.deep_view();
            assert(out.deep_view() =~= prev_out.push(expanded_view));
            assert(tv.take(i + 1) =~= tv.take(i as int).push(tv[i as int]));
            assert(out.deep_view() =~= tv.take(i + 1).map_values(expand_fn));
            assert(missing.deep_view() =~= prev_missing + token_missing_view);
            tv.take(i as int).lemma_flat_map_push(missing_fn, tv[i as int]);
            assert(missing.deep_view() =~= tv.take(i + 1).flat_map(missing_fn));
        }
        i = i + 1;
    }
    proof {
        assert(tokens.deep_view().take(n as int) =~= tokens.deep_view());
    }
    (out, missing)
}

} // verus!
