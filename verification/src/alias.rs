//! Alias resolution: the first token of a command is rewritten through the
//! alias table until it no longer names an alias, an alias already used in
//! this pass comes up again, or an alias expands to nothing. The set of names
//! already expanded in the pass guarantees termination on self-referencing or
//! mutually recursive aliases; a cycle is truncated silently, never reported.
//! The alias table itself is only read.

use vstd::prelude::*;
use crate::strmap::{lemma_assoc_map_len, StrMap};
use crate::strutil::{is_space, is_space_char, push_char, str_eq};

verus! {

/// The whitespace-split words of `s` from position `i` on, with `cur` the
/// word text accumulated so far.
pub open spec fn spec_split_ws_from(s: Seq<char>, i: int, cur: Seq<char>) -> Seq<Seq<char>>
    decreases s.len() - i,
{
    if i < 0 || i >= s.len() {
        if cur.len() > 0 {
            seq![cur]
        } else {
            Seq::empty()
        }
    } else if is_space_char(s[i]) {
        if cur.len() > 0 {
            seq![cur] + spec_split_ws_from(s, i + 1, Seq::empty())
        } else {
            spec_split_ws_from(s, i + 1, Seq::empty())
        }
    } else {
        spec_split_ws_from(s, i + 1, cur.push(s[i]))
    }
}

/// The whitespace-split words of a whole string; no word is empty.
pub open spec fn spec_split_ws(s: Seq<char>) -> Seq<Seq<char>> {
    spec_split_ws_from(s, 0, Seq::empty())
}

/// Splits a string on whitespace into its words.
pub fn split_ws(s: &str) -> (words: Vec<String>)
    ensures
        words.deep_view() == spec_split_ws(s@),
{
    let n = s.unicode_len();
    let mut words: Vec<String> = Vec::new();
    let mut cur = String::new();
    let mut i: usize = 0;
    while i < n
        invariant
            n == s@.len(),
            i <= n,
            spec_split_ws(s@) == words.deep_view() + spec_split_ws_from(s@, i as int, cur@),
        decreases n - i,
    {
        let ghost ii = i as int;
        let ghost prev_words = words.deep_view();
        let ghost prev_cur = cur@;
        let c = s.get_char(i);
        if is_space(c) {
            if !cur.as_str().is_empty() {
                words.push(cur);
                cur = String::new();
                proof {
                    assert(spec_split_ws_from(s@, ii, prev_cur) == seq![prev_cur]
                        + spec_split_ws_from(s@, ii + 1, Seq::empty()));
                    assert(words.deep_view() =~= prev_words.push(prev_cur));
                    assert(prev_words + (seq![prev_cur] + spec_split_ws_from(
                        s@,
                        ii + 1,
                        Seq::empty(),
                    )) =~= words.deep_view() + spec_split_ws_from(s@, ii + 1, Seq::empty()));
                }
            } else {
                proof {
                    assert(prev_cur =~= Seq::<char>::empty());
                    assert(spec_split_ws_from(s@, ii, prev_cur) == spec_split_ws_from(
                        s@,
                        ii + 1,
                        cur@,
                    ));
                }
            }
        } else {
            push_char(&mut cur, c);
            proof {
                assert(spec_split_ws_from(s@, ii, prev_cur) == spec_split_ws_from(
                    s@,
                    ii + 1,
                    cur@,
                ));
            }
        }
        i = i + 1;
    }
    if !cur.as_str().is_empty() {
        let ghost prev_words = words.deep_view();
        let ghost cur_view = cur@;
        words.push(cur);
        proof {
            assert(words.deep_view() =~= prev_words.push(cur_view));
            assert(prev_words + seq![cur_view] =~= words.deep_view());
        }
    } else {
        proof {
            assert(cur@ =~= Seq::<char>::empty());
            assert(words.deep_view() + Seq::<Seq<char>>::empty() =~= words.deep_view());
        }
    }
    words
}

/// The result of alias resolution on a token sequence, given the names
/// already expanded in this pass and the number of rewrites still allowed.
/// With `fuel` at least the number of aliases not yet expanded, the fuel
/// never runs out: each rewrite consumes a distinct alias name.
pub open spec fn spec_resolve(
    tokens: Seq<Seq<char>>,
    aliases: Map<Seq<char>, Seq<char>>,
    visited: Set<Seq<char>>,
    fuel: nat,
) -> Seq<Seq<char>>
    decreases fuel,
{
    if tokens.len() == 0 {
        tokens
    } else if visited.contains(tokens[0]) || !aliases.contains_key(tokens[0]) {
        tokens
    } else {
        let repl = spec_split_ws(aliases[tokens[0]]);
        if repl.len() == 0 || fuel == 0 {
            tokens
        } else {
            spec_resolve(repl + tokens.drop_first(), aliases, visited.insert(tokens[0]), (fuel
                - 1) as nat)
        }
    }
}

/// A token sequence whose first token is no alias — or is empty, or starts
/// with a name already expanded — is left exactly as it is, whatever fuel is
/// available.
pub proof fn lemma_resolve_unaliased(
    tokens: Seq<Seq<char>>,
    aliases: Map<Seq<char>, Seq<char>>,
    visited: Set<Seq<char>>,
    fuel: nat,
)
    requires
        tokens.len() == 0 || visited.contains(tokens[0]) || !aliases.contains_key(tokens[0]),
    ensures
        spec_resolve(tokens, aliases, visited, fuel) == tokens,
{
}

/// An aliased leading token is expanded exactly once when its replacement
/// starts with the alias's own name (a self-reference, stopped by the
/// already-expanded guard) or with a name that is no alias. The rest of the
/// token sequence is carried along unchanged.
pub proof fn lemma_resolve_single_expansion(
    name: Seq<char>,
    rest: Seq<Seq<char>>,
    aliases: Map<Seq<char>, Seq<char>>,
    fuel: nat,
)
    requires
        aliases.contains_key(name),
        spec_split_ws(aliases[name]).len() > 0,
        spec_split_ws(aliases[name])[0] == name || !aliases.contains_key(
            spec_split_ws(aliases[name])[0],
        ),
        fuel >= 1,
    ensures
        spec_resolve(seq![name] + rest, aliases, Set::empty(), fuel) == spec_split_ws(
            aliases[name],
        ) + rest,
{
    let t = seq![name] + rest;
    let repl = spec_split_ws(aliases[name]);
    assert(t[0] == name);
    assert(t.drop_first() =~= rest);
    assert(spec_resolve(t, aliases, Set::empty(), fuel) == spec_resolve(
        repl + rest,
        aliases,
        Set::empty().insert(name),
        (fuel - 1) as nat,
    ));
    assert((repl + rest)[0] == repl[0]);
    lemma_resolve_unaliased(repl + rest, aliases, Set::empty().insert(name), (fuel - 1) as nat);
}

/// Two aliases that expand to each other form a cycle, and the pass cuts it
/// off after each name was used once: resolution of the one-token command
/// `a` ends with the finite sequence `a` again, instead of looping forever.
pub proof fn lemma_resolve_mutual_cycle(
    a: Seq<char>,
    b: Seq<char>,
    aliases: Map<Seq<char>, Seq<char>>,
    fuel: nat,
)
    requires
        a != b,
        aliases.contains_key(a),
        aliases.contains_key(b),
        spec_split_ws(aliases[a]) == seq![b],
        spec_split_ws(aliases[b]) == seq![a],
        fuel >= 2,
    ensures
        spec_resolve(seq![a], aliases, Set::empty(), fuel) == seq![a],
{
    let t0 = seq![a];
    assert(t0.drop_first() =~= Seq::<Seq<char>>::empty());
    assert(seq![b] + t0.drop_first() =~= seq![b]);
    assert(spec_resolve(t0, aliases, Set::empty(), fuel) == spec_resolve(
        seq![b],
        aliases,
        Set::empty().insert(a),
        (fuel - 1) as nat,
    ));
    let t1 = seq![b];
    assert(t1.drop_first() =~= Seq::<Seq<char>>::empty());
    assert(seq![a] + t1.drop_first() =~= seq![a]);
    assert(spec_resolve(t1, aliases, Set::empty().insert(a), (fuel - 1) as nat) == spec_resolve(
        seq![a],
        aliases,
        Set::empty().insert(a).insert(b),
        (fuel - 2) as nat,
    ));
    lemma_resolve_unaliased(
        seq![a],
        aliases,
        Set::empty().insert(a).insert(b),
        (fuel - 2) as nat,
    );
}

/// Whether some element of `v` has the same text as `s`.
fn contains_str(v: &Vec<String>, s: &str) -> (r: bool)
    ensures
        r == v.deep_view().contains(s@),
{
    let n = v.len();
    let mut i: usize = 0;
    while i < n
        invariant
            n == v@.len(),
            i <= n,
            forall|j: int| 0 <= j < i ==> v.deep_view()[j] != s@,
        decreases n - i,
    {
        if str_eq(v[i].as_str(), s) {
            assert(v.deep_view()[i as int] == s@);
            return true;
        }
        i = i + 1;
    }
    assert(!v.deep_view().contains(s@));
    false
}

/// Rewrites the leading token through the alias table until no alias
/// applies, an alias already expanded in this pass comes up again (a cycle,
/// truncated silently), or an alias expands to nothing.
pub fn resolve_aliases(tokens: &mut Vec<String>, aliases: &StrMap)
    requires
        aliases.inv(),
    ensures
        final(tokens).deep_view() == spec_resolve(
            old(tokens).deep_view(),
            aliases@,
            Set::empty(),
            aliases.pairs@.len() as nat,
        ),
{
    broadcast use vstd::seq_lib::seq_to_set_is_finite;
    broadcast use vstd::set::axiom_set_insert_len;

    let ghost orig = tokens.deep_view();
    let ghost amap = aliases@;
    let ghost total = aliases.pairs@.len() as nat;

    if tokens.len() == 0 {
        return;
    }

    proof {
        lemma_assoc_map_len(aliases.pairs@);
    }

    let mut visited: Vec<String> = Vec::new();
    proof {
        assert(visited.deep_view().to_set() =~= Set::<Seq<char>>::empty());
    }
    loop
        invariant
            aliases.inv(),
            amap == aliases@,
            total == aliases.pairs@.len(),
            amap.dom().finite(),
            amap.dom().len() == total,
            tokens@.len() > 0,
            visited.deep_view().no_duplicates(),
            forall|j: int|
                0 <= j < visited@.len() ==> amap.contains_key(#[trigger] visited.deep_view()[j]),
            visited@.len() <= total,
            spec_resolve(orig, amap, Set::empty(), total) == spec_resolve(
                tokens.deep_view(),
                amap,
                visited.deep_view().to_set(),
                (total - visited@.len()) as nat,
            ),
        ensures
            tokens.deep_view() == spec_resolve(orig, amap, Set::empty(), total),
        decreases total - visited@.len(),
    {
        let ghost cur_tokens = tokens.deep_view();
        let ghost vset = visited.deep_view().to_set();
        let ghost fuel = (total - visited@.len()) as nat;
        let head = tokens[0].clone();
        assert(head@ == cur_tokens[0]);

        if contains_str(&visited, head.as_str()) {
            proof {
                assert(vset.contains(cur_tokens[0]));
            }
            break;
        }
        assert(!vset.contains(cur_tokens[0]));

        match aliases.get(head.as_str()) {
            None => {
                break;
            },
            Some(value) => {
                let repl = split_ws(value.as_str());
                if repl.len() == 0 {
                    proof {
                        assert(spec_split_ws(amap[cur_tokens[0]]).len() == 0);
                    }
                    break;
                }
                proof {
                    // the fuel cannot be exhausted here: the names expanded
                    // so far are distinct keys of the alias table, and the
                    // head is yet another one
                    visited.deep_view().unique_seq_to_set();
                    vstd::set_lib::lemma_len_subset(vset, amap.dom());
                    assert(vset.insert(cur_tokens[0]).subset_of(amap.dom()));
                    vstd::set_lib::lemma_len_subset(vset.insert(cur_tokens[0]), amap.dom());
                    assert(visited@.len() < total);
                }
                let ghost prev_visited = visited.deep_view();
                visited.push(head);
                let mut rest = tokens.split_off(1);
                let mut new_tokens = repl;
                new_tokens.append(&mut rest);
                *tokens = new_tokens;
                proof {
                    assert(tokens.deep_view() =~= spec_split_ws(amap[cur_tokens[0]])
                        + cur_tokens.drop_first());
                    let new_visited = visited.deep_view();
                    assert(new_visited =~= prev_visited.push(cur_tokens[0]));
                    assert forall|i: int, j: int| 0 <= i < j < new_visited.len() implies
                        new_visited[i] != new_visited[j] by {
                        if j == new_visited.len() - 1 {
                            if new_visited[i] == cur_tokens[0] {
                                assert(prev_visited[i] == cur_tokens[0]);
                                assert(prev_visited.contains(cur_tokens[0]));
                            }
                        }
                    }
                    assert forall|a: Seq<char>| new_visited.to_set().contains(a) implies
                        vset.insert(cur_tokens[0]).contains(a) by {
                        let k = choose|k: int| 0 <= k < new_visited.len() && new_visited[k] == a;
                        if k < new_visited.len() - 1 {
                            assert(prev_visited[k] == a);
                            assert(prev_visited.contains(a));
                        }
                    }
                    assert forall|a: Seq<char>| vset.insert(cur_tokens[0]).contains(a) implies
                        new_visited.to_set().contains(a) by {
                        if a == cur_tokens[0] {
                            assert(new_visited[new_visited.len() - 1] == a);
                            assert(new_visited.contains(a));
                        } else {
                            let k = choose|k: int|
                                0 <= k < prev_visited.len() && prev_visited[k] == a;
                            assert(new_visited[k] == a);
                            assert(new_visited.contains(a));
                        }
                    }
                    assert(visited.deep_view().to_set() =~= vset.insert(cur_tokens[0]));
                    assert(spec_resolve(cur_tokens, amap, vset, fuel) == spec_resolve(
                        tokens.deep_view(),
                        amap,
                        visited.deep_view().to_set(),
                        (fuel - 1) as nat,
                    ));
                }
            },
        }
    }
}

} // verus!
