//! Finding the executable that a command name stands for.
//!
//! The resolver looks for a file at the name itself, then at the name below
//! the current directory, then below each directory of the search path, and
//! settles on the first that exists. Whether a file exists is asked of the
//! caller, one path at a time and only as far as needed; what the resolver
//! promises holds whatever the answers are.

use crate::text::chars_of;
use vstd::prelude::*;

verus! {

/// `name` below the directory `dir`: the two joined by one `/`, which is left
/// out where `dir` is empty or already ends in one.
pub open spec fn joined(dir: Seq<char>, name: Seq<char>) -> Seq<char> {
    if dir.len() == 0 || dir.last() == '/' {
        dir + name
    } else {
        dir + seq!['/'] + name
    }
}

/// The paths at which `command` is looked for, in the order in which they
/// are tried: `command` itself, `./command`, then `command` below each
/// directory of `search_path` in turn.
pub open spec fn candidates(command: Seq<char>, search_path: Seq<Seq<char>>) -> Seq<Seq<char>> {
    seq![command, seq!['.', '/'] + command] + Seq::new(
        search_path.len(),
        |i: int| joined(search_path[i], command),
    )
}

/// Whether `probe`, asked about `path`, may answer `answer`.
pub open spec fn answers<F: Fn(&str) -> bool>(probe: F, path: Seq<char>, answer: bool) -> bool {
    exists|p: &str| p@ == path && probe.ensures((p,), answer)
}

/// Whether asking `probe` about the paths of `paths` in order stops at
/// position `k` with the result `path`: `probe` has denied each of the first
/// `k` paths, and then either it has confirmed the path at position `k`,
/// which is `path`, or there is no such path, and `path` is `fallback`.
pub open spec fn stops_at<F: Fn(&str) -> bool>(
    probe: F,
    paths: Seq<Seq<char>>,
    fallback: Seq<char>,
    k: int,
    path: Seq<char>,
) -> bool {
    &&& 0 <= k <= paths.len()
    &&& forall|j: int| 0 <= j < k ==> answers(probe, #[trigger] paths[j], false)
    &&& k < paths.len() ==> path == paths[k] && answers(probe, paths[k], true)
    &&& k == paths.len() ==> path == fallback
}

/// Whether `path` is what resolving `command` comes to when `probe` tells
/// which files exist: `probe` has denied every candidate in front of `path`
/// and confirmed `path`; or it has denied every candidate, and `path` is
/// `command`, unchanged.
pub open spec fn resolved_by<F: Fn(&str) -> bool>(
    probe: F,
    command: Seq<char>,
    search_path: Seq<Seq<char>>,
    path: Seq<char>,
) -> bool {
    exists|k: int| #[trigger] stops_at(probe, candidates(command, search_path), command, k, path)
}

/// The first path of `paths` that `present` holds of, or `fallback` where it
/// holds of none.
pub open spec fn first_existing(
    paths: Seq<Seq<char>>,
    present: spec_fn(Seq<char>) -> bool,
    fallback: Seq<char>,
) -> Seq<char>
    decreases paths.len(),
{
    if paths.len() == 0 {
        fallback
    } else if present(paths[0]) {
        paths[0]
    } else {
        first_existing(paths.drop_first(), present, fallback)
    }
}

/// The executable path of `command` in a file system where exactly the paths
/// that `present` holds of are there: the first candidate that exists, or
/// `command` itself where none does.
pub open spec fn resolution(
    command: Seq<char>,
    search_path: Seq<Seq<char>>,
    present: spec_fn(Seq<char>) -> bool,
) -> Seq<char> {
    first_existing(candidates(command, search_path), present, command)
}

/// Whether `probe` tells the truth about the file system that `present`
/// describes: it answers each path with what `present` says of it.
pub open spec fn decides<F: Fn(&str) -> bool>(
    probe: F,
    present: spec_fn(Seq<char>) -> bool,
) -> bool {
    forall|p: &str, answer: bool| probe.ensures((p,), answer) ==> answer == present(p@)
}

/// A command with its executable path.
#[derive(Debug, Clone, PartialEq, Eq)]
pub struct ResolvedExecutable {
    /// The path of the program to start.
    pub path: String,
    /// The argument vector that the command was typed as.
    pub argv: Vec<String>,
}

/// The arguments that a program started from `path` for the argument vector
/// `argv` is given: `argv` with the path in place of the command name.
pub open spec fn program_arguments(path: Seq<char>, argv: Seq<Seq<char>>) -> Seq<Seq<char>> {
    if argv.len() == 0 {
        seq![path]
    } else {
        argv.update(0, path)
    }
}

impl ResolvedExecutable {
    /// The arguments to start the program with: the argument vector with the
    /// executable path in place of the command name.
    pub fn arguments(&self) -> (args: Vec<String>)
        ensures
            args.deep_view() == program_arguments(self.path@, self.argv.deep_view()),
    {
        let mut args: Vec<String> = Vec::new();
        args.push(self.path.clone());
        let mut i: usize = 1;
        while i < self.argv.len()
            invariant
                1 <= i,
                self.argv.len() > 0 ==> i <= self.argv.len(),
                args.len() == if self.argv.len() == 0 { 1 } else { i as int },
                args@[0]@ == self.path@,
                forall|j: int| 1 <= j < args.len() ==> args@[j]@ == self.argv@[j]@,
            decreases self.argv.len() - i,
        {
            args.push(self.argv[i].clone());
            i += 1;
        }
        assert(args.deep_view() =~= program_arguments(self.path@, self.argv.deep_view()));
        args
    }
}

/// The directories that are searched for a command, in this order. The list
/// is fixed: it is not taken from the environment.
pub open spec fn default_directories() -> Seq<Seq<char>> {
    seq!["/usr/local/bin"@, "/usr/bin"@, "/bin"@]
}

/// The search path of the shell: the fixed list `default_directories`.
pub fn default_search_path() -> (search_path: Vec<String>)
    ensures
        search_path.deep_view() == default_directories(),
{
    let mut search_path: Vec<String> = Vec::new();
    search_path.push("/usr/local/bin".to_owned());
    search_path.push("/usr/bin".to_owned());
    search_path.push("/bin".to_owned());
    assert(search_path.deep_view() =~= default_directories());
    search_path
}

/// `name` below the directory `dir`.
pub fn join(dir: &str, name: &str) -> (path: String)
    ensures
        path@ == joined(dir@, name@),
{
    let dir_chars = chars_of(dir);
    let mut path = dir.to_owned();
    if dir_chars.len() > 0 && dir_chars[dir_chars.len() - 1] != '/' {
        path.push('/');
    }
    path.append(name);
    path
}

/// Resolves the command name `argv[0]` against `search_path`, asking `probe`
/// whether there is a file at a path. Existence alone decides: nothing is
/// asked about permissions. Where no candidate exists the name comes back as
/// the path, so that starting the program fails with the operating system's
/// own error.
pub fn resolve<F: Fn(&str) -> bool>(argv: Vec<String>, search_path: &Vec<String>, probe: F) -> (r:
    ResolvedExecutable)
    requires
        argv.len() > 0,
        forall|p: &str| probe.requires((p,)),
    ensures
        r.argv == argv,
        resolved_by(probe, argv[0]@, search_path.deep_view(), r.path@),
{
    let ghost c = candidates(argv[0]@, search_path.deep_view());
    let command = argv[0].clone();
    if probe(command.as_str()) {
        assert(stops_at(probe, c, argv[0]@, 0, command@));
        return ResolvedExecutable { path: command, argv };
    }
    let mut local = "./".to_owned();
    proof {
        reveal_strlit("./");
        assert(local@ =~= seq!['.', '/']);
    }
    local.append(command.as_str());
    if probe(local.as_str()) {
        assert(stops_at(probe, c, argv[0]@, 1, local@));
        return ResolvedExecutable { path: local, argv };
    }
    let mut i: usize = 0;
    while i < search_path.len()
        invariant
            i <= search_path.len(),
            argv.len() > 0,
            command@ == argv[0]@,
            c == candidates(argv[0]@, search_path.deep_view()),
            forall|p: &str| probe.requires((p,)),
            forall|j: int| 0 <= j < i + 2 ==> answers(probe, #[trigger] c[j], false),
        decreases search_path.len() - i,
    {
        let path = join(search_path[i].as_str(), command.as_str());
        assert(c[i + 2] == path@);
        if probe(path.as_str()) {
            assert(stops_at(probe, c, argv[0]@, i + 2, path@));
            return ResolvedExecutable { path, argv };
        }
        i += 1;
    }
    assert(stops_at(probe, c, argv[0]@, c.len() as int, command@));
    ResolvedExecutable { path: command, argv }
}

/// In a file system that `oracle` describes, and with a probe that tells the
/// truth about it, resolving gives the first candidate that exists, or the
/// command name itself where none does.
pub proof fn lemma_resolved_is_first_existing<F: Fn(&str) -> bool>(
    probe: F,
    oracle: spec_fn(Seq<char>) -> bool,
    command: Seq<char>,
    search_path: Seq<Seq<char>>,
    path: Seq<char>,
)
    requires
        decides(probe, oracle),
        resolved_by(probe, command, search_path, path),
    ensures
        path == resolution(command, search_path, oracle),
{
    let c = candidates(command, search_path);
    let k = choose|k: int| #[trigger] stops_at(probe, c, command, k, path);
    assert forall|j: int| 0 <= j < k implies !oracle(#[trigger] c[j]) by {
        assert(answers(probe, c[j], false));
    }
    lemma_first_existing(c, oracle, command, k);
}

/// Where `present` holds of none of the first `k` paths, the first existing
/// path is the one at position `k` if `present` holds of it, and the fallback
/// if `k` is the number of paths.
pub proof fn lemma_first_existing(
    paths: Seq<Seq<char>>,
    present: spec_fn(Seq<char>) -> bool,
    fallback: Seq<char>,
    k: int,
)
    requires
        0 <= k <= paths.len(),
        forall|j: int| 0 <= j < k ==> !present(#[trigger] paths[j]),
    ensures
        k < paths.len() && present(paths[k]) ==> first_existing(paths, present, fallback) == paths[k],
        k == paths.len() ==> first_existing(paths, present, fallback) == fallback,
    decreases paths.len(),
{
    if paths.len() > 0 && k > 0 {
        assert(!present(paths[0]));
        let rest = paths.drop_first();
        assert forall|j: int| 0 <= j < k - 1 implies !present(#[trigger] rest[j]) by {
            assert(rest[j] == paths[j + 1]);
        }
        lemma_first_existing(rest, present, fallback, k - 1);
    }
}

} // verus!
