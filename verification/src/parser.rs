//! Splitting a raw input line into word tokens. Whitespace separates tokens,
//! except inside a span opened by `'` or `"`, which is kept together as part
//! of the current token (quotes group, they do not escape). An unterminated
//! quote is treated as closed at end of line, never as an error. A second
//! pass strips one matching pair of quote characters from the ends of each
//! token.

use vstd::prelude::*;
use crate::helpers::{expand_env_vars, spec_expand, spec_missing};
use crate::strmap::StrMap;
use crate::strutil::{is_quote, is_quote_char, is_space, is_space_char, push_char};

verus! {

/// The tokens of `line` from position `i` on, given the token text
/// accumulated so far (`cur`) and the currently open quote, if any.
pub open spec fn spec_tokenize_from(
    line: Seq<char>,
    i: int,
    cur: Seq<char>,
    quote: Option<char>,
) -> Seq<Seq<char>>
    decreases line.len() - i,
{
    if i < 0 || i >= line.len() {
        if cur.len() > 0 {
            seq![cur]
        } else {
            Seq::empty()
        }
    } else {
        let c = line[i];
        match quote {
            Some(q) => {
                if c == q {
                    spec_tokenize_from(line, i + 1, cur.push(c), None)
                } else {
                    spec_tokenize_from(line, i + 1, cur.push(c), Some(q))
                }
            },
            None => {
                if is_quote_char(c) {
                    spec_tokenize_from(line, i + 1, cur.push(c), Some(c))
                } else if is_space_char(c) {
                    if cur.len() > 0 {
                        seq![cur] + spec_tokenize_from(line, i + 1, Seq::empty(), None)
                    } else {
                        spec_tokenize_from(line, i + 1, Seq::empty(), None)
                    }
                } else {
                    spec_tokenize_from(line, i + 1, cur.push(c), None)
                }
            },
        }
    }
}

/// The token sequence of a whole line.
pub open spec fn spec_tokenize(line: Seq<char>) -> Seq<Seq<char>> {
    spec_tokenize_from(line, 0, Seq::empty(), None)
}

/// Every token the tokenizer emits is non-empty, whatever state it is in.
proof fn lemma_tokenize_from_nonempty(line: Seq<char>, i: int, cur: Seq<char>, quote: Option<char>)
    ensures
        forall|j: int|
            0 <= j < spec_tokenize_from(line, i, cur, quote).len()
                ==> (#[trigger] spec_tokenize_from(line, i, cur, quote)[j]).len() > 0,
    decreases line.len() - i,
{
    let whole = spec_tokenize_from(line, i, cur, quote);
    if i < 0 || i >= line.len() {
    } else {
        let c = line[i];
        match quote {
            Some(q) => {
                if c == q {
                    lemma_tokenize_from_nonempty(line, i + 1, cur.push(c), None);
                    assert(whole == spec_tokenize_from(line, i + 1, cur.push(c), None));
                } else {
                    lemma_tokenize_from_nonempty(line, i + 1, cur.push(c), Some(q));
                    assert(whole == spec_tokenize_from(line, i + 1, cur.push(c), Some(q)));
                }
            },
            None => {
                if is_quote_char(c) {
                    lemma_tokenize_from_nonempty(line, i + 1, cur.push(c), Some(c));
                    assert(whole == spec_tokenize_from(line, i + 1, cur.push(c), Some(c)));
                } else if is_space_char(c) {
                    lemma_tokenize_from_nonempty(line, i + 1, Seq::empty(), None);
                    if cur.len() > 0 {
                        let rest = spec_tokenize_from(line, i + 1, Seq::empty(), None);
                        assert forall|j: int| 0 <= j < whole.len() implies (#[trigger] whole[j]).len()
                            > 0 by {
                            if j > 0 {
                                assert(whole[j] == rest[j - 1]);
                            }
                        }
                    } else {
                        assert(whole == spec_tokenize_from(line, i + 1, Seq::empty(), None));
                    }
                } else {
                    lemma_tokenize_from_nonempty(line, i + 1, cur.push(c), None);
                    assert(whole == spec_tokenize_from(line, i + 1, cur.push(c), None));
                }
            },
        }
    }
}

/// A token sequence never contains an empty token: what the tokenizer flushes
/// is always non-empty text.
pub proof fn lemma_tokenize_nonempty(line: Seq<char>)
    ensures
        forall|j: int|
            0 <= j < spec_tokenize(line).len() ==> (#[trigger] spec_tokenize(line)[j]).len() > 0,
{
    lemma_tokenize_from_nonempty(line, 0, Seq::empty(), None);
}

/// Splits a command line into tokens, honoring quoted spans.
pub fn tokenize(line: &str) -> (tokens: Vec<String>)
    ensures
        tokens.deep_view() == spec_tokenize(line@),
        forall|j: int| 0 <= j < tokens@.len() ==> (#[trigger] tokens@[j])@.len() > 0,
{
    let n = line.unicode_len();
    let mut tokens: Vec<String> = Vec::new();
    let mut current_token = String::new();
    let mut in_quote: Option<char> = None;
    let mut i: usize = 0;

    while i < n
        invariant
            n == line@.len(),
            i <= n,
            spec_tokenize(line@) == tokens.deep_view() + spec_tokenize_from(
                line@,
                i as int,
                current_token@,
                in_quote,
            ),
            forall|j: int| 0 <= j < tokens@.len() ==> (#[trigger] tokens@[j])@.len() > 0,
        decreases n - i,
    {
        let ch = line.get_char(i);
        let ghost prev_tokens = tokens.deep_view();
        let ghost prev_cur = current_token@;
        let ghost prev_quote = in_quote;
        let ghost ii = i as int;
        match in_quote {
            Some(quote_char) => {
                if ch == quote_char {
                    in_quote = None;
                }
                push_char(&mut current_token, ch);
                proof {
                    assert(spec_tokenize_from(line@, ii, prev_cur, prev_quote)
                        == spec_tokenize_from(line@, ii + 1, current_token@, in_quote));
                }
            },
            None => {
                if is_quote(ch) {
                    in_quote = Some(ch);
                    push_char(&mut current_token, ch);
                    proof {
                        assert(spec_tokenize_from(line@, ii, prev_cur, prev_quote)
                            == spec_tokenize_from(line@, ii + 1, current_token@, in_quote));
                    }
                } else if is_space(ch) {
                    if !current_token.as_str().is_empty() {
                        assert(current_token@.len() > 0);
                        tokens.push(current_token);
                        current_token = String::new();
                        proof {
                            assert(spec_tokenize_from(line@, ii, prev_cur, prev_quote)
                                == seq![prev_cur] + spec_tokenize_from(
                                line@,
                                ii + 1,
                                Seq::empty(),
                                None,
                            ));
                            assert(tokens.deep_view() =~= prev_tokens.push(prev_cur));
                            assert(prev_tokens + (seq![prev_cur] + spec_tokenize_from(
                                line@,
                                ii + 1,
                                Seq::empty(),
                                None,
                            )) =~= tokens.deep_view() + spec_tokenize_from(
                                line@,
                                ii + 1,
                                Seq::empty(),
                                None,
                            ));
                        }
                    } else {
                        proof {
                            assert(prev_cur =~= Seq::<char>::empty());
                            assert(spec_tokenize_from(line@, ii, prev_cur, prev_quote)
                                == spec_tokenize_from(line@, ii + 1, current_token@, in_quote));
                        }
                    }
                } else {
                    push_char(&mut current_token, ch);
                    proof {
                        assert(spec_tokenize_from(line@, ii, prev_cur, prev_quote)
                            == spec_tokenize_from(line@, ii + 1, current_token@, in_quote));
                    }
                }
            },
        }
        i = i + 1;
    }

    if !current_token.as_str().is_empty() {
        assert(current_token@.len() > 0);
        let ghost prev_tokens = tokens.deep_view();
        tokens.push(current_token);
        proof {
            assert(tokens.deep_view() =~= prev_tokens.push(tokens@.last()@));
            assert(prev_tokens + seq![tokens@.last()@] =~= tokens.deep_view());
        }
    } else {
        proof {
            assert(tokens.deep_view() + Seq::<Seq<char>>::empty() =~= tokens.deep_view());
        }
    }
    tokens
}

/// One layer of quote stripping: if a token of length at least 2 begins and
/// ends with the same quote character, that pair is removed; otherwise the
/// token is unchanged.
pub open spec fn spec_trim_token(t: Seq<char>) -> Seq<char> {
    if t.len() >= 2 && is_quote_char(t[0]) && t[t.len() - 1] == t[0] {
        t.subrange(1, t.len() - 1)
    } else {
        t
    }
}

/// Strips one matching pair of quote characters from the ends of each token.
pub fn trim_quotes(tokens: Vec<String>) -> (r: Vec<String>)
    ensures
        r.deep_view() == tokens.deep_view().map_values(|t: Seq<char>| spec_trim_token(t)),
{
    let n = tokens.len();
    let mut out: Vec<String> = Vec::new();
    let mut i: usize = 0;
    while i < n
        invariant
            n == tokens@.len(),
            i <= n,
            out.deep_view() =~= tokens.deep_view().subrange(0, i as int).map_values(
                |t: Seq<char>| spec_trim_token(t),
            ),
        decreases n - i,
    {
        let t: &String = &tokens[i];
        let len = t.as_str().unicode_len();
        let trimmed: String;
        if len >= 2 {
            let first = t.as_str().get_char(0);
            let last = t.as_str().get_char(len - 1);
            if (first == '\'' || first == '"') && last == first {
                trimmed = String::from_str(t.as_str().substring_char(1, len - 1));
            } else {
                trimmed = t.clone();
            }
        } else {
            trimmed = t.clone();
        }
        assert(trimmed@ == spec_trim_token(tokens.deep_view()[i as int]));
        let ghost prev_out = out.deep_view();
        out.push(trimmed);
        proof {
            assert(out.deep_view() =~= prev_out.push(spec_trim_token(tokens.deep_view()[i as int])));
            assert(out.deep_view() =~= tokens.deep_view().subrange(0, i + 1).map_values(
                |t: Seq<char>| spec_trim_token(t),
            ));
        }
        i = i + 1;
    }
    proof {
        assert(tokens.deep_view().subrange(0, n as int) =~= tokens.deep_view());
    }
    out
}

/// The token sequence of a line after tokenizing, quote trimming and
/// variable expansion, before alias resolution.
pub open spec fn spec_expanded_tokens(line: Seq<char>, env: Map<Seq<char>, Seq<char>>) -> Seq<
    Seq<char>,
> {
    spec_tokenize(line).map_values(|t: Seq<char>| spec_trim_token(t)).map_values(
        (|t: Seq<char>| spec_expand(t, env)),
    )
}

/// The unbound variable names a line references, in order.
pub open spec fn spec_line_warnings(line: Seq<char>, env: Map<Seq<char>, Seq<char>>) -> Seq<
    Seq<char>,
> {
    spec_tokenize(line).map_values(|t: Seq<char>| spec_trim_token(t)).flat_map(
        (|t: Seq<char>| spec_missing(t, env)),
    )
}

/// Runs a line through tokenizing, quote trimming and variable expansion.
/// Returns the tokens ready for alias resolution, together with the unbound
/// variable names referenced, for the caller to report as warnings.
pub fn parse_line(line: &str, env_vars: &StrMap) -> (r: (Vec<String>, Vec<String>))
    requires
        env_vars.inv(),
    ensures
        r.0.deep_view() == spec_expanded_tokens(line@, env_vars@),
        r.1.deep_view() == spec_line_warnings(line@, env_vars@),
{
    let raw_tokens = tokenize(line);
    let trimmed_tokens = trim_quotes(raw_tokens);
    expand_env_vars(trimmed_tokens, env_vars)
}

} // verus!
