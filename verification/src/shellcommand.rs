//! Classifying a token sequence as a recognized built-in with its parsed
//! arguments, or as an external command to be spawned verbatim. The grammar:
//! `exit`; `cd [path]` (defaulting to `.`); `echo [words...]`; `history`;
//! `help`; `set <name> <value...>`; `alias <name> <expansion...>`;
//! `unset <name>`; `env`. Anything else is external. Too few tokens for
//! `set`, `alias` or `unset` is a missing-arguments error; an empty token
//! sequence is an empty-command error.

use vstd::prelude::*;
use crate::strutil::str_eq;

verus! {

/// A built-in operation with its parsed arguments.
#[derive(Debug)]
pub enum BuiltinCommand {
    Help,
    Exit,
    Cd(String),
    Echo(String),
    History,
    SetEnv(String, String),
    UnsetEnv(String),
    Alias(String, String),
    Env(),
}

/// The mathematical value of a `BuiltinCommand`: the same shape over
/// character sequences.
pub enum BuiltinView {
    Help,
    Exit,
    Cd(Seq<char>),
    Echo(Seq<char>),
    History,
    SetEnv(Seq<char>, Seq<char>),
    UnsetEnv(Seq<char>),
    Alias(Seq<char>, Seq<char>),
    Env,
}

impl View for BuiltinCommand {
    type V = BuiltinView;

    open spec fn view(&self) -> BuiltinView {
        match self {
            BuiltinCommand::Help => BuiltinView::Help,
            BuiltinCommand::Exit => BuiltinView::Exit,
            BuiltinCommand::Cd(target) => BuiltinView::Cd(target@),
            BuiltinCommand::Echo(message) => BuiltinView::Echo(message@),
            BuiltinCommand::History => BuiltinView::History,
            BuiltinCommand::SetEnv(name, value) => BuiltinView::SetEnv(name@, value@),
            BuiltinCommand::UnsetEnv(name) => BuiltinView::UnsetEnv(name@),
            BuiltinCommand::Alias(name, value) => BuiltinView::Alias(name@, value@),
            BuiltinCommand::Env() => BuiltinView::Env,
        }
    }
}

/// A classified command: a built-in, or an external invocation that reuses
/// the token sequence verbatim.
#[derive(Debug)]
pub enum ShellCommand {
    Builtin(BuiltinCommand),
    External(),
}

/// The mathematical value of a `ShellCommand`.
pub enum ShellCommandView {
    Builtin(BuiltinView),
    External,
}

impl View for ShellCommand {
    type V = ShellCommandView;

    open spec fn view(&self) -> ShellCommandView {
        match self {
            ShellCommand::Builtin(b) => ShellCommandView::Builtin(b@),
            ShellCommand::External() => ShellCommandView::External,
        }
    }
}

/// Why a line could not be classified. Neither kind is fatal to the shell.
#[derive(Debug)]
pub enum ShellError {
    /// No tokens were left after expansion and resolution.
    EmptyCommand,
    /// The named built-in was invoked with too few tokens.
    MissingArguments(String),
}

/// The mathematical value of a `ShellError`.
pub enum ShellErrorView {
    EmptyCommand,
    MissingArguments(Seq<char>),
}

impl View for ShellError {
    type V = ShellErrorView;

    open spec fn view(&self) -> ShellErrorView {
        match self {
            ShellError::EmptyCommand => ShellErrorView::EmptyCommand,
            ShellError::MissingArguments(name) => ShellErrorView::MissingArguments(name@),
        }
    }
}

impl ShellError {
    /// A plain-text description of the error.
    pub fn message(&self) -> (r: String)
        ensures
            self@ is EmptyCommand ==> r@ == "No command provided"@,
            forall|name: Seq<char>|
                self@ == ShellErrorView::MissingArguments(name) ==> r@ == "Missing arguments for '"@
                    + name + "' command"@,
    {
        match self {
            ShellError::EmptyCommand => String::from_str("No command provided"),
            ShellError::MissingArguments(name) => {
                let mut r = String::from_str("Missing arguments for '");
                r.append(name.as_str());
                r.append("' command");
                r
            },
        }
    }
}

/// The tokens joined into one string with single spaces between them.
pub open spec fn spec_join_spaces(ts: Seq<Seq<char>>) -> Seq<char>
    decreases ts.len(),
{
    if ts.len() == 0 {
        Seq::empty()
    } else if ts.len() == 1 {
        ts[0]
    } else {
        ts[0] + seq![' '] + spec_join_spaces(ts.drop_first())
    }
}

/// Joining one more token appends a space and that token.
proof fn lemma_join_push(ts: Seq<Seq<char>>, x: Seq<char>)
    requires
        ts.len() > 0,
    ensures
        spec_join_spaces(ts.push(x)) == spec_join_spaces(ts) + seq![' '] + x,
    decreases ts.len(),
{
    if ts.len() == 1 {
        assert(ts.push(x).drop_first() =~= seq![x]);
        assert(spec_join_spaces(seq![x]) == x);
        assert(ts[0] + seq![' '] + x == spec_join_spaces(ts) + seq![' '] + x);
    } else {
        lemma_join_push(ts.drop_first(), x);
        assert(ts.push(x).drop_first() =~= ts.drop_first().push(x));
        assert(ts[0] + seq![' '] + (spec_join_spaces(ts.drop_first()) + seq![' '] + x)
            =~= (ts[0] + seq![' '] + spec_join_spaces(ts.drop_first())) + seq![' '] + x);
    }
}

/// Joins the tokens from index `from` on with single spaces.
pub fn join_tokens(tokens: &Vec<String>, from: usize) -> (r: String)
    requires
        from <= tokens@.len(),
    ensures
        r@ == spec_join_spaces(tokens.deep_view().skip(from as int)),
{
    let ghost suffix = tokens.deep_view().skip(from as int);
    let n = tokens.len();
    if from >= n {
        proof {
            assert(suffix =~= Seq::<Seq<char>>::empty());
        }
        return String::new();
    }
    let mut r = tokens[from].clone();
    let mut i: usize = from + 1;
    proof {
        assert(suffix.subrange(0, 1) =~= seq![suffix[0]]);
        assert(spec_join_spaces(seq![suffix[0]]) == suffix[0]);
    }
    while i < n
        invariant
            from < i <= n,
            n == tokens@.len(),
            suffix == tokens.deep_view().skip(from as int),
            r@ == spec_join_spaces(suffix.subrange(0, i - from)),
        decreases n - i,
    {
        let ghost prefix = suffix.subrange(0, i - from);
        r.append(" ");
        r.append(tokens[i].as_str());
        proof {
            reveal_strlit(" ");
            assert(" "@ =~= seq![' ']);
            lemma_join_push(prefix, suffix[i - from]);
            assert(suffix.subrange(0, i + 1 - from) =~= prefix.push(suffix[i - from]));
            assert(suffix[i - from] == tokens.deep_view()[i as int]);
            assert(r@ =~= spec_join_spaces(prefix) + seq![' '] + suffix[i - from]);
        }
        i = i + 1;
    }
    proof {
        assert(suffix.subrange(0, n - from) =~= suffix);
    }
    r
}

/// What a token sequence classifies to.
pub open spec fn spec_classify(tokens: Seq<Seq<char>>) -> Result<ShellCommandView, ShellErrorView> {
    if tokens.len() == 0 {
        Err(ShellErrorView::EmptyCommand)
    } else if tokens[0] == "exit"@ {
        Ok(ShellCommandView::Builtin(BuiltinView::Exit))
    } else if tokens[0] == "cd"@ {
        Ok(ShellCommandView::Builtin(BuiltinView::Cd(
            if tokens.len() > 1 {
                tokens[1]
            } else {
                "."@
            },
        )))
    } else if tokens[0] == "echo"@ {
        Ok(ShellCommandView::Builtin(BuiltinView::Echo(spec_join_spaces(tokens.drop_first()))))
    } else if tokens[0] == "history"@ {
        Ok(ShellCommandView::Builtin(BuiltinView::History))
    } else if tokens[0] == "help"@ {
        Ok(ShellCommandView::Builtin(BuiltinView::Help))
    } else if tokens[0] == "set"@ {
        if tokens.len() < 3 {
            Err(ShellErrorView::MissingArguments("set"@))
        } else {
            Ok(ShellCommandView::Builtin(BuiltinView::SetEnv(
                tokens[1],
                spec_join_spaces(tokens.skip(2)),
            )))
        }
    } else if tokens[0] == "alias"@ {
        if tokens.len() < 3 {
            Err(ShellErrorView::MissingArguments("alias"@))
        } else {
            Ok(ShellCommandView::Builtin(BuiltinView::Alias(
                tokens[1],
                spec_join_spaces(tokens.skip(2)),
            )))
        }
    } else if tokens[0] == "unset"@ {
        if tokens.len() < 2 {
            Err(ShellErrorView::MissingArguments("unset"@))
        } else {
            Ok(ShellCommandView::Builtin(BuiltinView::UnsetEnv(tokens[1])))
        }
    } else if tokens[0] == "env"@ {
        Ok(ShellCommandView::Builtin(BuiltinView::Env))
    } else {
        Ok(ShellCommandView::External)
    }
}

impl ShellCommand {
    /// Classifies a token sequence: the first token picks the built-in, the
    /// remaining tokens are its arguments; an unrecognized first token means
    /// an external command.
    pub fn from_tokens(tokens: &Vec<String>) -> (r: Result<ShellCommand, ShellError>)
        ensures
            match r {
                Ok(c) => spec_classify(tokens.deep_view()) == Ok::<ShellCommandView, ShellErrorView>(
                    c@,
                ),
                Err(e) => spec_classify(tokens.deep_view()) == Err::<
                    ShellCommandView,
                    ShellErrorView,
                >(e@),
            },
    {
        let ghost td = tokens.deep_view();
        if tokens.len() == 0 {
            return Err(ShellError::EmptyCommand);
        }
        let head = tokens[0].as_str();
        assert(head@ == td[0]);
        if str_eq(head, "exit") {
            Ok(ShellCommand::Builtin(BuiltinCommand::Exit))
        } else if str_eq(head, "cd") {
            let target = if tokens.len() > 1 {
                tokens[1].clone()
            } else {
                String::from_str(".")
            };
            Ok(ShellCommand::Builtin(BuiltinCommand::Cd(target)))
        } else if str_eq(head, "echo") {
            let message = join_tokens(tokens, 1);
            proof {
                assert(td.skip(1) =~= td.drop_first());
            }
            Ok(ShellCommand::Builtin(BuiltinCommand::Echo(message)))
        } else if str_eq(head, "history") {
            Ok(ShellCommand::Builtin(BuiltinCommand::History))
        } else if str_eq(head, "help") {
            Ok(ShellCommand::Builtin(BuiltinCommand::Help))
        } else if str_eq(head, "set") {
            if tokens.len() < 3 {
                return Err(ShellError::MissingArguments(String::from_str("set")));
            }
            let name = tokens[1].clone();
            let value = join_tokens(tokens, 2);
            Ok(ShellCommand::Builtin(BuiltinCommand::SetEnv(name, value)))
        } else if str_eq(head, "alias") {
            if tokens.len() < 3 {
                return Err(ShellError::MissingArguments(String::from_str("alias")));
            }
            let name = tokens[1].clone();
            let value = join_tokens(tokens, 2);
            Ok(ShellCommand::Builtin(BuiltinCommand::Alias(name, value)))
        } else if str_eq(head, "unset") {
            if tokens.len() < 2 {
                return Err(ShellError::MissingArguments(String::from_str("unset")));
            }
            Ok(ShellCommand::Builtin(BuiltinCommand::UnsetEnv(tokens[1].clone())))
        } else if str_eq(head, "env") {
            Ok(ShellCommand::Builtin(BuiltinCommand::Env()))
        } else {
            Ok(ShellCommand::External())
        }
    }
}

} // verus!
