//! One cycle of the shell: from a line of input to what has to be done for it.

use crate::builtins::{
    dispatch, dispatched, lemma_only_set_changes_variables, Action, ActionView,
};
use crate::error::{ErrorView, ShellError};
use crate::expand::{
    expand_variables, expansion, has_no_reference, lemma_expansion_is_identity_without_reference,
    lemma_expansion_of_one_reference, opens_reference, Expanded,
};
use crate::text::{
    content_end, content_start, is_space, lemma_trimmed_blank_is_empty, trim, trimmed,
};
use crate::tokenizer::{lemma_tokens_of_separated, lemma_tokens_of_word, tokenize, tokens};
use crate::variables::ShellState;
use vstd::prelude::*;

verus! {

/// What one read from standard input gave.
#[derive(Debug, Clone, PartialEq, Eq)]
pub enum Input {
    /// A line, with or without its line terminator.
    Line(String),
    /// The input has ended.
    EndOfInput,
}

/// What the shell has decided about one input.
#[derive(Debug, Clone, PartialEq, Eq)]
pub struct Outcome {
    /// The errors to report before anything else is done, in this order.
    pub errors: Vec<ShellError>,
    /// What is left for the caller to do.
    pub action: Action,
}

/// The mathematical model of an `Outcome`.
pub ghost struct OutcomeView {
    pub errors: Seq<ErrorView>,
    pub action: ActionView,
}

impl View for Outcome {
    type V = OutcomeView;

    open spec fn view(&self) -> OutcomeView {
        OutcomeView { errors: self.errors.deep_view(), action: self.action@ }
    }
}

/// The mathematical model of one cycle: the variables afterwards, and what
/// the shell has decided.
pub ghost struct Interpreted {
    pub variables: Map<Seq<char>, Seq<char>>,
    pub outcome: OutcomeView,
}

/// The errors that report the names of `names` as not set, in the same order.
pub open spec fn unknown_variables(names: Seq<Seq<char>>) -> Seq<ErrorView> {
    Seq::new(names.len(), |i: int| ErrorView::UnknownVariable { name: names[i] })
}

/// The meaning of a line. The line is trimmed, then expanded under the
/// variables as they are before the line; the expanded text is split into
/// tokens, and the argument vector is dispatched. Each reference to a
/// variable that is not set gives one error; the line is carried out all the
/// same, with nothing in the place of the reference.
pub open spec fn interpreted(
    vars: Map<Seq<char>, Seq<char>>,
    home: Seq<char>,
    line: Seq<char>,
) -> Interpreted {
    let expanded = expansion(vars, trimmed(line));
    let done = dispatched(vars, home, tokens(expanded.text));
    Interpreted {
        variables: done.variables,
        outcome: OutcomeView {
            errors: unknown_variables(expanded.missing),
            action: done.action,
        },
    }
}

/// The meaning of one input: that of the line, if it is one; at the end of
/// the input the shell ends with exit code 0, with no error and no change.
pub open spec fn stepped(vars: Map<Seq<char>, Seq<char>>, home: Seq<char>, input: Input) -> Interpreted {
    match input {
        Input::Line(line) => interpreted(vars, home, line@),
        Input::EndOfInput => Interpreted {
            variables: vars,
            outcome: OutcomeView { errors: Seq::empty(), action: ActionView::Exit { code: 0 } },
        },
    }
}

/// A blank line does nothing: no error, no action, no change.
pub proof fn lemma_blank_line_does_nothing(
    vars: Map<Seq<char>, Seq<char>>,
    home: Seq<char>,
    line: Seq<char>,
)
    requires
        forall|i: int| 0 <= i < line.len() ==> is_space(#[trigger] line[i]),
    ensures
        interpreted(vars, home, line) == (Interpreted {
            variables: vars,
            outcome: OutcomeView { errors: Seq::empty(), action: ActionView::Nothing },
        }),
{
    lemma_trimmed_blank_is_empty(line);
    let expanded = expansion(vars, Seq::<char>::empty());
    assert(expanded.text == Seq::<char>::empty());
    assert(tokens(expanded.text) =~= Seq::<Seq<char>>::empty());
    assert(unknown_variables(expanded.missing) =~= Seq::<ErrorView>::empty());
}

/// Whether `word` can stand in a line as one token that means itself: it
/// is not empty and holds neither white space nor `$(`.
pub open spec fn is_plain_word(word: Seq<char>) -> bool {
    &&& word.len() > 0
    &&& forall|j: int| 0 <= j < word.len() ==> !is_space(word[j])
    &&& has_no_reference(word)
}

/// The line that sets `name` to `value`.
pub open spec fn set_line(name: Seq<char>, value: Seq<char>) -> Seq<char> {
    "set "@ + name + " "@ + value
}

/// The line `set name value`, for plain words `name` and `value`, gives
/// `name` the value `value` and does nothing else: every other variable
/// keeps its value, no error is reported and no action is left.
pub proof fn lemma_set_line_sets(
    vars: Map<Seq<char>, Seq<char>>,
    home: Seq<char>,
    name: Seq<char>,
    value: Seq<char>,
)
    requires
        is_plain_word(name),
        is_plain_word(value),
    ensures
        interpreted(vars, home, set_line(name, value)) == (Interpreted {
            variables: vars.insert(name, value),
            outcome: OutcomeView { errors: Seq::empty(), action: ActionView::Nothing },
        }),
{
    reveal_strlit("set ");
    reveal_strlit("set");
    reveal_strlit(" ");
    let line = set_line(name, value);
    let n = line.len() as int;
    let a = 4 + name.len() as int;
    assert(n == a + 1 + value.len());
    assert(line[0] == 's' && line[1] == 'e' && line[2] == 't' && line[3] == ' ');
    assert forall|j: int| 0 <= j < name.len() implies line[4 + j] == name[j] by {}
    assert(line[a] == ' ');
    assert forall|j: int| 0 <= j < value.len() implies line[a + 1 + j] == value[j] by {}
    assert(trimmed(line) == line) by {
        assert(!is_space('s'));
        assert(content_start(line, 0) == 0);
        assert(line[n - 1] == value[value.len() - 1]);
        assert(content_end(line, n) == n);
        assert(line.subrange(0, n) =~= line);
    }
    assert(has_no_reference(line)) by {
        assert forall|i: int| !opens_reference(line, i) by {
            if 4 <= i < a {
                assert(line[i] == name[i - 4]);
                assert(!opens_reference(name, i - 4));
                if i + 1 < a {
                    assert(line[i + 1] == name[i + 1 - 4]);
                }
            } else if a < i < n {
                assert(line[i] == value[i - a - 1]);
                assert(!opens_reference(value, i - a - 1));
                if i + 1 < n {
                    assert(line[i + 1] == value[i + 1 - a - 1]);
                }
            }
        }
    }
    lemma_expansion_is_identity_without_reference(vars, line);
    assert(tokens(line) == seq!["set"@, name, value]) by {
        let rest = name + seq![' '] + value;
        assert(line =~= "set"@ + seq![' '] + rest);
        assert(!is_space('s') && !is_space('e') && !is_space('t') && is_space(' '));
        lemma_tokens_of_separated("set"@, ' ', rest);
        lemma_tokens_of_separated(name, ' ', value);
        lemma_tokens_of_word("set"@);
        lemma_tokens_of_word(name);
        lemma_tokens_of_word(value);
        assert(seq!["set"@] + (seq![name] + seq![value]) =~= seq!["set"@, name, value]);
    }
    let argv = seq!["set"@, name, value];
    lemma_only_set_changes_variables(vars, home, argv);
    assert(dispatched(vars, home, argv).action == ActionView::Nothing) by {
        reveal_strlit("help");
        reveal_strlit("cd");
        reveal_strlit("exit");
        reveal_strlit("quit");
    }
    assert(unknown_variables(Seq::<Seq<char>>::empty()) =~= Seq::<ErrorView>::empty());
}

/// The last write wins: after the lines `set name first` and `set name
/// second`, a reference to `name` expands to `second`, whatever the
/// variables were before.
pub proof fn lemma_last_write_wins(
    vars: Map<Seq<char>, Seq<char>>,
    home: Seq<char>,
    name: Seq<char>,
    first: Seq<char>,
    second: Seq<char>,
)
    requires
        is_plain_word(name),
        is_plain_word(first),
        is_plain_word(second),
        forall|j: int| 0 <= j < name.len() ==> name[j] != ')',
    ensures
        ({
            let once = interpreted(vars, home, set_line(name, first)).variables;
            let twice = interpreted(once, home, set_line(name, second)).variables;
            expansion(twice, seq!['$', '('] + name + seq![')']) == (Expanded {
                text: second,
                missing: Seq::empty(),
            })
        }),
{
    lemma_set_line_sets(vars, home, name, first);
    let once = vars.insert(name, first);
    lemma_set_line_sets(once, home, name, second);
    lemma_expansion_of_one_reference(once.insert(name, second), name);
}

/// Interprets one line: expands it, splits it, and carries out the builtin
/// it names, if any. `home` is the directory that `cd` without an argument
/// changes to.
pub fn interpret(state: &mut ShellState, home: &str, line: &str) -> (outcome: Outcome)
    ensures
        final(state)@ == interpreted(old(state)@, home@, line@).variables,
        outcome@ == interpreted(old(state)@, home@, line@).outcome,
{
    let line = trim(line);
    let expanded = expand_variables(state, line.as_str());
    let mut errors: Vec<ShellError> = Vec::new();
    let mut i: usize = 0;
    while i < expanded.missing.len()
        invariant
            i <= expanded.missing.len(),
            errors.len() == i,
            forall|k: int|
                0 <= k < i ==> errors@[k]@ == (ErrorView::UnknownVariable {
                    name: expanded.missing@[k]@,
                }),
        decreases expanded.missing.len() - i,
    {
        errors.push(ShellError::UnknownVariable { name: expanded.missing[i].clone() });
        i += 1;
    }
    assert(errors.deep_view() =~= unknown_variables(expanded.missing.deep_view()));
    let argv = tokenize(expanded.text.as_str());
    let action = dispatch(state, home, argv);
    Outcome { errors, action }
}

/// Decides what to do about one input.
pub fn step(state: &mut ShellState, home: &str, input: Input) -> (outcome: Outcome)
    ensures
        final(state)@ == stepped(old(state)@, home@, input).variables,
        outcome@ == stepped(old(state)@, home@, input).outcome,
{
    match input {
        Input::Line(line) => interpret(state, home, line.as_str()),
        Input::EndOfInput => {
            let errors: Vec<ShellError> = Vec::new();
            assert(errors.deep_view() =~= Seq::<ErrorView>::empty());
            Outcome { errors, action: Action::Exit { code: 0 } }
        },
    }
}

/// The prompt for the working directory `cwd`: the directory, followed by
/// ` > `.
pub fn prompt(cwd: &str) -> (text: String)
    ensures
        text@ == cwd@ + " > "@,
{
    let mut text = cwd.to_owned();
    text.append(" > ");
    text
}

} // verus!
