//! The builtin commands: which lines the shell carries out itself, and what
//! it asks of its caller for the others.

use crate::error::{ErrorView, ShellError};
use crate::variables::ShellState;
use vstd::prelude::*;

verus! {

/// The usage text that `help` shows.
pub const HELP: &'static str =
    "Builtin commands:\n  help              show this text\n  cd [DIR]          change the working directory (to the home directory without DIR)\n  set NAME VALUE    set a variable; $(NAME) in a later line stands for VALUE\n  exit, quit        leave the shell\nAny other command is run as a program.";

/// What the caller has to do for a line once the dispatcher has looked at it.
#[derive(Debug, Clone, PartialEq, Eq)]
pub enum Action {
    /// Nothing: the line was blank, or a builtin has done all there was to do.
    Nothing,
    /// Show the usage text.
    Help,
    /// Make `path` the working directory.
    ChangeDirectory { path: String },
    /// End the shell process with the exit code `code`.
    Exit { code: i32 },
    /// Report `error`; nothing else is done for this line.
    Report { error: ShellError },
    /// Run the program named by `argv[0]` with the arguments `argv`.
    Run { argv: Vec<String> },
}

/// The mathematical model of an `Action`.
pub ghost enum ActionView {
    Nothing,
    Help,
    ChangeDirectory { path: Seq<char> },
    Exit { code: i32 },
    Report { error: ErrorView },
    Run { argv: Seq<Seq<char>> },
}

impl View for Action {
    type V = ActionView;

    open spec fn view(&self) -> ActionView {
        match self {
            Action::Nothing => ActionView::Nothing,
            Action::Help => ActionView::Help,
            Action::ChangeDirectory { path } => ActionView::ChangeDirectory { path: path@ },
            Action::Exit { code } => ActionView::Exit { code: *code },
            Action::Report { error } => ActionView::Report { error: error@ },
            Action::Run { argv } => ActionView::Run { argv: argv.deep_view() },
        }
    }
}

/// What dispatching an argument vector comes to: the variables afterwards,
/// and the action left to the caller.
pub ghost struct Dispatched {
    pub variables: Map<Seq<char>, Seq<char>>,
    pub action: ActionView,
}

/// The meaning of an argument vector, by its first token.
///
/// - No token, or an empty first token: nothing happens.
/// - `help`: the usage text is shown.
/// - `cd`: with one argument the working directory changes to it, with none
///   it changes to `home`; more than one argument is an error and nothing
///   changes.
/// - `exit` or `quit`: the shell ends with exit code 0, whatever follows the
///   first token.
/// - `set`: with exactly a name and a value the name gets that value, in
///   place of any value it had; any other number of arguments is an error
///   and nothing changes.
/// - Anything else names a program to run with the whole vector as its
///   arguments.
///
/// Only `set` changes the variables.
pub open spec fn dispatched(
    vars: Map<Seq<char>, Seq<char>>,
    home: Seq<char>,
    argv: Seq<Seq<char>>,
) -> Dispatched {
    if argv.len() == 0 || argv[0].len() == 0 {
        Dispatched { variables: vars, action: ActionView::Nothing }
    } else if argv[0] == "help"@ {
        Dispatched { variables: vars, action: ActionView::Help }
    } else if argv[0] == "cd"@ {
        if argv.len() == 1 {
            Dispatched { variables: vars, action: ActionView::ChangeDirectory { path: home } }
        } else if argv.len() == 2 {
            Dispatched { variables: vars, action: ActionView::ChangeDirectory { path: argv[1] } }
        } else {
            Dispatched {
                variables: vars,
                action: ActionView::Report { error: ErrorView::InvalidCd },
            }
        }
    } else if argv[0] == "exit"@ || argv[0] == "quit"@ {
        Dispatched { variables: vars, action: ActionView::Exit { code: 0 } }
    } else if argv[0] == "set"@ {
        if argv.len() == 3 {
            Dispatched { variables: vars.insert(argv[1], argv[2]), action: ActionView::Nothing }
        } else {
            Dispatched {
                variables: vars,
                action: ActionView::Report { error: ErrorView::InvalidSet },
            }
        }
    } else {
        Dispatched { variables: vars, action: ActionView::Run { argv } }
    }
}

/// Only `set` with a name and a value changes the variables, and it changes
/// nothing but the value of that name.
pub proof fn lemma_only_set_changes_variables(
    vars: Map<Seq<char>, Seq<char>>,
    home: Seq<char>,
    argv: Seq<Seq<char>>,
)
    ensures
        dispatched(vars, home, argv).variables == if argv.len() == 3 && argv[0] == "set"@ {
            vars.insert(argv[1], argv[2])
        } else {
            vars
        },
{
    reveal_strlit("set");
    reveal_strlit("help");
    reveal_strlit("cd");
    reveal_strlit("exit");
    reveal_strlit("quit");
}

/// `cd` with more than one argument is an error, whatever the arguments
/// are: no directory is changed to, and the variables stay as they are.
pub proof fn lemma_cd_takes_one_argument(
    vars: Map<Seq<char>, Seq<char>>,
    home: Seq<char>,
    argv: Seq<Seq<char>>,
)
    requires
        argv.len() > 2,
        argv[0] == "cd"@,
    ensures
        dispatched(vars, home, argv) == (Dispatched {
            variables: vars,
            action: ActionView::Report { error: ErrorView::InvalidCd },
        }),
{
    reveal_strlit("cd");
    reveal_strlit("help");
}

/// The last `set` wins: after a name was set twice, to `first` and then to
/// `second`, its value is `second`, and every other name has the value it
/// had before.
pub proof fn lemma_last_set_wins(
    vars: Map<Seq<char>, Seq<char>>,
    home: Seq<char>,
    name: Seq<char>,
    first: Seq<char>,
    second: Seq<char>,
)
    ensures
        ({
            let once = dispatched(vars, home, seq!["set"@, name, first]).variables;
            let twice = dispatched(once, home, seq!["set"@, name, second]).variables;
            twice == vars.insert(name, second)
        }),
{
    lemma_only_set_changes_variables(vars, home, seq!["set"@, name, first]);
    let once = vars.insert(name, first);
    lemma_only_set_changes_variables(once, home, seq!["set"@, name, second]);
    assert(once.insert(name, second) =~= vars.insert(name, second));
}

/// Whether `token` is the word `word`.
fn is_word(token: &String, word: &str) -> (r: bool)
    ensures
        r == (token@ == word@),
{
    *token == word.to_owned()
}

/// Carries out the builtin that `argv` names, if it names one, and says what
/// is left for the caller to do. `home` is the directory that `cd` without an
/// argument changes to.
pub fn dispatch(state: &mut ShellState, home: &str, argv: Vec<String>) -> (action: Action)
    ensures
        final(state)@ == dispatched(old(state)@, home@, argv.deep_view()).variables,
        action@ == dispatched(old(state)@, home@, argv.deep_view()).action,
{
    if argv.len() == 0 || argv[0].as_str().is_empty() {
        Action::Nothing
    } else if is_word(&argv[0], "help") {
        Action::Help
    } else if is_word(&argv[0], "cd") {
        if argv.len() == 1 {
            Action::ChangeDirectory { path: home.to_owned() }
        } else if argv.len() == 2 {
            Action::ChangeDirectory { path: argv[1].clone() }
        } else {
            Action::Report { error: ShellError::InvalidCd }
        }
    } else if is_word(&argv[0], "exit") || is_word(&argv[0], "quit") {
        Action::Exit { code: 0 }
    } else if is_word(&argv[0], "set") {
        if argv.len() == 3 {
            state.set_variable(argv[1].as_str(), argv[2].as_str());
            Action::Nothing
        } else {
            Action::Report { error: ShellError::InvalidSet }
        }
    } else {
        Action::Run { argv }
    }
}

} // verus!
