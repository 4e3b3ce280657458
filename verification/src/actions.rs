//! The control-command grammar: parsing one command line into an action and
//! printing an action back into its textual form.

use vstd::prelude::*;

verus! {

use crate::strutil::{eq_lowered, spec_is_space, spec_lower, spec_tokens, tail_of, tokenize};
use vstd::string::StringExecFns;

/// Why a command line could not be parsed into an action.
#[derive(Debug)]
pub enum ParseActionError {
    /// The line held no token at all.
    NoCommandFound,
    /// The named command needs at least one program name and got none.
    NoProgramsProvided(String),
    /// The named command takes no arguments and got some.
    ToManyArguments(String),
    /// The first token names no known command.
    UnrecognizedAction(String),
}

/// One parsed control command.
#[derive(Debug, Clone, PartialEq)]
pub enum Action {
    /// Shut the supervisor down cleanly.
    Quit,
    /// Reload the configuration from disk.
    Reload,
    /// Restart the named programs.
    Restart(Vec<String>),
    /// Report every group's status.
    Status,
    /// Start the named programs.
    Start(Vec<String>),
    /// Stop the named programs.
    Stop(Vec<String>),
}

/// What a successful parse of a token list into an action means: the first
/// token names the action's command regardless of letter case, the commands
/// without arguments stand alone, and the commands with program names carry
/// every following token, in order.
pub open spec fn spec_ok_action(toks: Seq<Seq<char>>, a: Action) -> bool {
    match a {
        Action::Quit => toks.len() == 1 && spec_lower(toks[0]) == "quit"@,
        Action::Reload => toks.len() == 1 && spec_lower(toks[0]) == "reload"@,
        Action::Status => toks.len() == 1 && spec_lower(toks[0]) == "status"@,
        Action::Restart(ps) => toks.len() > 1 && spec_lower(toks[0]) == "restart"@
            && ps.deep_view() == toks.skip(1),
        Action::Start(ps) => toks.len() > 1 && spec_lower(toks[0]) == "start"@ && ps.deep_view()
            == toks.skip(1),
        Action::Stop(ps) => toks.len() > 1 && spec_lower(toks[0]) == "stop"@ && ps.deep_view()
            == toks.skip(1),
    }
}

/// What each parse error means about the token list: exactly the lines that
/// fit no action shape are rejected, each with its own diagnosis.
pub open spec fn spec_err_action(toks: Seq<Seq<char>>, e: ParseActionError) -> bool {
    match e {
        ParseActionError::NoCommandFound => toks.len() == 0,
        ParseActionError::ToManyArguments(w) => toks.len() > 1 && (spec_lower(toks[0]) == "quit"@
            || spec_lower(toks[0]) == "reload"@ || spec_lower(toks[0]) == "status"@) && w@
            == spec_lower(toks[0]),
        ParseActionError::NoProgramsProvided(w) => toks.len() == 1 && (spec_lower(toks[0])
            == "restart"@ || spec_lower(toks[0]) == "start"@ || spec_lower(toks[0]) == "stop"@)
            && w@ == spec_lower(toks[0]),
        ParseActionError::UnrecognizedAction(w) => toks.len() > 0 && w@ == toks[0] && spec_lower(
            toks[0],
        ) != "quit"@ && spec_lower(toks[0]) != "reload"@ && spec_lower(toks[0]) != "status"@
            && spec_lower(toks[0]) != "restart"@ && spec_lower(toks[0]) != "start"@ && spec_lower(
            toks[0],
        ) != "stop"@,
    }
}

/// The space-joined concatenation of a list of words.
pub open spec fn spec_join(names: Seq<Seq<char>>) -> Seq<char>
    decreases names.len(),
{
    if names.len() == 0 {
        Seq::empty()
    } else if names.len() == 1 {
        names[0]
    } else {
        names[0] + seq![' '] + spec_join(names.drop_first())
    }
}

/// Joining one more word onto a nonempty list appends a separator and the
/// word.
pub proof fn lemma_join_snoc(names: Seq<Seq<char>>, x: Seq<char>)
    ensures
        spec_join(names.push(x)) == (if names.len() == 0 {
            x
        } else {
            spec_join(names) + seq![' '] + x
        }),
    decreases names.len(),
{
    if names.len() == 0 {
        assert(names.push(x).len() == 1);
        assert(names.push(x)[0] == x);
    } else {
        lemma_join_snoc(names.drop_first(), x);
        assert(names.push(x).drop_first() =~= names.drop_first().push(x));
        assert(names.push(x)[0] == names[0]);
        if names.len() == 1 {
            assert(spec_join(names.push(x)) =~= spec_join(names) + seq![' '] + x);
        } else {
            assert(names[0] + seq![' '] + (spec_join(names.drop_first()) + seq![' '] + x) =~= (
            names[0] + seq![' '] + spec_join(names.drop_first())) + seq![' '] + x);
        }
    }
}

/// The textual form of an action: the command word, then the program names
/// separated by single spaces.
pub open spec fn spec_action_string(a: Action) -> Seq<char> {
    match a {
        Action::Quit => "quit"@,
        Action::Reload => "reload"@,
        Action::Status => "status"@,
        Action::Restart(ps) => "restart "@ + spec_join(ps.deep_view()),
        Action::Start(ps) => "start "@ + spec_join(ps.deep_view()),
        Action::Stop(ps) => "stop "@ + spec_join(ps.deep_view()),
    }
}

/// A program name that survives the textual form: nonempty and free of
/// whitespace.
pub open spec fn spec_valid_name(n: Seq<char>) -> bool {
    n.len() > 0 && (forall|m: int| 0 <= m < n.len() ==> !spec_is_space(#[trigger] n[m]))
}

/// An action whose textual form parses back: the commands that carry
/// program names carry at least one, and every name is valid.
pub open spec fn spec_action_valid(a: Action) -> bool {
    match a {
        Action::Quit => true,
        Action::Reload => true,
        Action::Status => true,
        Action::Restart(ps) => ps.deep_view().len() >= 1 && (forall|i: int|
            0 <= i < ps.deep_view().len() ==> spec_valid_name(#[trigger] ps.deep_view()[i])),
        Action::Start(ps) => ps.deep_view().len() >= 1 && (forall|i: int|
            0 <= i < ps.deep_view().len() ==> spec_valid_name(#[trigger] ps.deep_view()[i])),
        Action::Stop(ps) => ps.deep_view().len() >= 1 && (forall|i: int|
            0 <= i < ps.deep_view().len() ==> spec_valid_name(#[trigger] ps.deep_view()[i])),
    }
}

impl Action {
    /// Parses one command line. The first token picks the command, letter
    /// case aside; `quit`, `reload` and `status` take no arguments, and
    /// `restart`, `start` and `stop` need at least one program name. Every
    /// other line is rejected with the fitting diagnosis.
    pub fn try_from(cmd: String) -> (r: Result<Action, ParseActionError>)
        ensures
            match r {
                Ok(a) => spec_ok_action(spec_tokens(cmd@), a),
                Err(e) => spec_err_action(spec_tokens(cmd@), e),
            },
    {
        let toks = tokenize(cmd.as_str());
        proof {
            assert(toks.deep_view().len() == toks@.len());
        }
        if toks.len() == 0 {
            return Err(ParseActionError::NoCommandFound);
        }
        proof {
            assert(toks.deep_view()[0] == toks@[0]@);
        }
        let first = &toks[0];
        if eq_lowered(first, "quit") {
            if toks.len() == 1 {
                Ok(Action::Quit)
            } else {
                Err(ParseActionError::ToManyArguments(String::from_str("quit")))
            }
        } else if eq_lowered(first, "reload") {
            if toks.len() == 1 {
                Ok(Action::Reload)
            } else {
                Err(ParseActionError::ToManyArguments(String::from_str("reload")))
            }
        } else if eq_lowered(first, "status") {
            if toks.len() == 1 {
                Ok(Action::Status)
            } else {
                Err(ParseActionError::ToManyArguments(String::from_str("status")))
            }
        } else if eq_lowered(first, "restart") {
            if toks.len() == 1 {
                Err(ParseActionError::NoProgramsProvided(String::from_str("restart")))
            } else {
                Ok(Action::Restart(tail_of(&toks)))
            }
        } else if eq_lowered(first, "start") {
            if toks.len() == 1 {
                Err(ParseActionError::NoProgramsProvided(String::from_str("start")))
            } else {
                Ok(Action::Start(tail_of(&toks)))
            }
        } else if eq_lowered(first, "stop") {
            if toks.len() == 1 {
                Err(ParseActionError::NoProgramsProvided(String::from_str("stop")))
            } else {
                Ok(Action::Stop(tail_of(&toks)))
            }
        } else {
            Err(ParseActionError::UnrecognizedAction(toks[0].clone()))
        }
    }

    /// Prints the action in the textual form that [`Action::try_from`]
    /// parses: the command word, then the program names separated by
    /// spaces.
    pub fn to_string(&self) -> (r: String)
        ensures
            r@ == spec_action_string(*self),
    {
        match self {
            Action::Quit => String::from_str("quit"),
            Action::Reload => String::from_str("reload"),
            Action::Status => String::from_str("status"),
            Action::Restart(ps) => {
                let mut s = String::from_str("restart ");
                append_join(&mut s, ps);
                s
            },
            Action::Start(ps) => {
                let mut s = String::from_str("start ");
                append_join(&mut s, ps);
                s
            },
            Action::Stop(ps) => {
                let mut s = String::from_str("stop ");
                append_join(&mut s, ps);
                s
            },
        }
    }
}

/// Appends the space-joined program names to the string.
fn append_join(s: &mut String, names: &Vec<String>)
    ensures
        final(s)@ == old(s)@ + spec_join(names.deep_view()),
{
    proof {
        assert(names.deep_view().take(0) =~= Seq::<Seq<char>>::empty());
        assert(s@ + spec_join(names.deep_view().take(0)) =~= s@);
    }
    let mut i: usize = 0;
    while i < names.len()
        invariant
            i <= names@.len(),
            s@ == old(s)@ + spec_join(names.deep_view().take(i as int)),
        decreases names@.len() - i,
    {
        let ghost sofar = s@;
        if i > 0 {
            s.append(" ");
        }
        s.append(names[i].as_str());
        proof {
            assert(names.deep_view()[i as int] == names@[i as int]@);
            assert(names.deep_view().take(i + 1int) =~= names.deep_view().take(i as int).push(
                names.deep_view()[i as int],
            ));
            lemma_join_snoc(names.deep_view().take(i as int), names.deep_view()[i as int]);
            if i > 0 {
                reveal_strlit(" ");
                assert(" "@ =~= seq![' ']);
                assert(sofar + " "@ + names@[i as int]@ =~= old(s)@ + spec_join(
                    names.deep_view().take(i + 1int),
                ));
            } else {
                assert(sofar + names@[i as int]@ =~= old(s)@ + spec_join(
                    names.deep_view().take(i + 1int),
                ));
            }
        }
        i += 1;
    }
    proof {
        assert(names.deep_view().take(names.deep_view().len() as int) =~= names.deep_view());
    }
}

/// The round trip of the command grammar: printing any valid action and
/// tokenizing the text back yields exactly the shape that parses to that
/// same action — the command word first, then precisely its program names.
pub proof fn lemma_action_round_trip(a: Action)
    requires
        spec_action_valid(a),
    ensures
        spec_ok_action(spec_tokens(spec_action_string(a)), a),
{
    reveal_strlit("quit");
    reveal_strlit("reload");
    reveal_strlit("status");
    reveal_strlit("restart");
    reveal_strlit("start");
    reveal_strlit("stop");
    reveal_strlit("restart ");
    reveal_strlit("start ");
    reveal_strlit("stop ");
    match a {
        Action::Quit => {
            lemma_word_parses_alone("quit"@);
        },
        Action::Reload => {
            lemma_word_parses_alone("reload"@);
        },
        Action::Status => {
            lemma_word_parses_alone("status"@);
        },
        Action::Restart(ps) => {
            assert("restart "@ =~= "restart"@ + seq![' ']);
            lemma_command_with_names("restart"@, ps.deep_view());
        },
        Action::Start(ps) => {
            assert("start "@ =~= "start"@ + seq![' ']);
            lemma_command_with_names("start"@, ps.deep_view());
        },
        Action::Stop(ps) => {
            assert("stop "@ =~= "stop"@ + seq![' ']);
            lemma_command_with_names("stop"@, ps.deep_view());
        },
    }
}

/// A lone lower-case word tokenizes to itself and lowers to itself.
proof fn lemma_word_parses_alone(w: Seq<char>)
    requires
        w.len() > 0,
        forall|m: int| 0 <= m < w.len() ==> !spec_is_space(#[trigger] w[m]),
        forall|m: int| 0 <= m < w.len() ==> spec_lower(w)[m] == w[m],
    ensures
        spec_tokens(w) == seq![w],
        spec_lower(w) == w,
{
    crate::strutil::lemma_tokens_single(w);
    assert(spec_lower(w) =~= w);
}

/// The tokens of a space-joined list of valid names are the names
/// themselves.
proof fn lemma_tokens_join_words(names: Seq<Seq<char>>)
    requires
        names.len() >= 1,
        forall|i: int| 0 <= i < names.len() ==> spec_valid_name(#[trigger] names[i]),
    ensures
        spec_tokens(spec_join(names)) == names,
    decreases names.len(),
{
    if names.len() == 1 {
        assert(spec_valid_name(names[0]));
        crate::strutil::lemma_tokens_single(names[0]);
        assert(seq![names[0]] =~= names);
    } else {
        assert(spec_valid_name(names[0]));
        assert(names[0] + seq![' '] + spec_join(names.drop_first()) =~= names[0] + (seq![' ']
            + spec_join(names.drop_first())));
        crate::strutil::lemma_tokens_word_prepend(
            names[0],
            seq![' '] + spec_join(names.drop_first()),
        );
        crate::strutil::lemma_tokens_space_prepend(spec_join(names.drop_first()));
        assert forall|i: int| 0 <= i < names.drop_first().len() implies spec_valid_name(
            #[trigger] names.drop_first()[i],
        ) by {
            assert(names.drop_first()[i] == names[i + 1]);
        }
        lemma_tokens_join_words(names.drop_first());
        assert(seq![names[0]] + names.drop_first() =~= names);
    }
}

/// A command word, a space, and a joined list of valid names tokenize to
/// the word followed by exactly those names.
proof fn lemma_command_with_names(w: Seq<char>, names: Seq<Seq<char>>)
    requires
        w.len() > 0,
        forall|m: int| 0 <= m < w.len() ==> !spec_is_space(#[trigger] w[m]),
        forall|m: int| 0 <= m < w.len() ==> spec_lower(w)[m] == w[m],
        names.len() >= 1,
        forall|i: int| 0 <= i < names.len() ==> spec_valid_name(#[trigger] names[i]),
    ensures
        spec_tokens(w + seq![' '] + spec_join(names)) == seq![w] + names,
        spec_lower(w) == w,
        (seq![w] + names).skip(1) == names,
{
    assert(spec_lower(w) =~= w);
    assert(w + seq![' '] + spec_join(names) =~= w + (seq![' '] + spec_join(names)));
    assert((seq![' '] + spec_join(names))[0] == ' ');
    crate::strutil::lemma_tokens_word_prepend(w, seq![' '] + spec_join(names));
    crate::strutil::lemma_tokens_space_prepend(spec_join(names));
    lemma_tokens_join_words(names);
    assert(spec_tokens(w + seq![' '] + spec_join(names)) =~= seq![w] + names);
    assert((seq![w] + names).skip(1) =~= names);
}


/// The human-readable diagnosis of a parse error.
pub open spec fn spec_parse_error_message(e: ParseActionError) -> Seq<char> {
    match e {
        ParseActionError::NoCommandFound => "No command found\n"@,
        ParseActionError::NoProgramsProvided(a) => "The command "@ + a@
            + " needs programs to run\n"@,
        ParseActionError::ToManyArguments(a) => "The command "@ + a@
            + " doesn't take programs\n"@,
        ParseActionError::UnrecognizedAction(a) => "The command "@ + a@ + " is not recognized\n"@,
    }
}

impl ParseActionError {
    /// Renders the diagnosis for the control-channel reply.
    pub fn message(&self) -> (r: String)
        ensures
            r@ == spec_parse_error_message(*self),
    {
        match self {
            ParseActionError::NoCommandFound => String::from_str("No command found\n"),
            ParseActionError::NoProgramsProvided(a) => {
                let mut s = String::from_str("The command ");
                s.append(a.as_str());
                s.append(" needs programs to run\n");
                s
            },
            ParseActionError::ToManyArguments(a) => {
                let mut s = String::from_str("The command ");
                s.append(a.as_str());
                s.append(" doesn't take programs\n");
                s
            },
            ParseActionError::UnrecognizedAction(a) => {
                let mut s = String::from_str("The command ");
                s.append(a.as_str());
                s.append(" is not recognized\n");
                s
            },
        }
    }
}

} // verus!
