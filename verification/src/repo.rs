//! The git side of a profile: what the probes of a checkout say, and the
//! commands that bring it in step with its remote.

use vstd::prelude::*;
use crate::hooks::{Command, Invocation};
use crate::text::{char_len, contains, has_infix, owned, strings_of};

verus! {

/// `text` without the whitespace at its start and at its end, as
/// `str::trim` returns it.
pub uninterp spec fn trimmed(text: Seq<char>) -> Seq<char>;

/// Calls `str::trim`, which returns the text without leading and trailing
/// whitespace.
#[verifier::external_body]
fn trim(text: &str) -> (r: String)
    ensures
        r@ == trimmed(text@),
{
    text.trim().to_string()
}

/// What the probes found in a checkout.
#[derive(Debug, Clone, PartialEq, Eq)]
pub struct RepoState {
    /// There are changes that are not committed.
    pub dirty: bool,
    /// There is a remote called `origin`.
    pub has_origin: bool,
    /// The branch that is checked out.
    pub branch: String,
}

/// A git checkout.
#[derive(Debug, Clone)]
pub struct Repo {
    pub path: String,
}

/// The process `git` with `args`, started in the directory of the caller.
pub open spec fn git_command(args: Seq<Seq<char>>) -> Command {
    Command { program: "git"@, args, cwd: None, capture: false }
}

/// The process `git` with `args`, started in the checkout at `path`.
pub open spec fn git_in(path: Seq<char>, args: Seq<Seq<char>>) -> Command {
    Command { program: "git"@, args, cwd: Some(path), capture: false }
}

/// The process `git` with `args`, started in the checkout at `path`, whose
/// output is read by the caller.
pub open spec fn probe_in(path: Seq<char>, args: Seq<Seq<char>>) -> Command {
    Command { program: "git"@, args, cwd: Some(path), capture: true }
}

/// Each of `list` as a git command in the checkout at `path`.
pub open spec fn in_checkout(path: Seq<char>, list: Seq<Seq<Seq<char>>>) -> Seq<Command> {
    Seq::new(list.len(), |i: int| git_in(path, list[i]))
}

/// `status --porcelain`, which prints nothing for a clean checkout.
pub open spec fn status_args() -> Seq<Seq<char>> {
    seq!["status"@, "--porcelain"@]
}

/// `remote -v`, which prints the remotes.
pub open spec fn remote_args() -> Seq<Seq<char>> {
    seq!["remote"@, "-v"@]
}

/// `rev-parse --abbrev-ref HEAD`, which prints the branch.
pub open spec fn branch_args() -> Seq<Seq<char>> {
    seq!["rev-parse"@, "--abbrev-ref"@, "HEAD"@]
}

/// `add --all`.
pub open spec fn add_args() -> Seq<Seq<char>> {
    seq!["add"@, "--all"@]
}

/// `commit -m` with the message.
pub open spec fn commit_args(message: Seq<char>) -> Seq<Seq<char>> {
    seq!["commit"@, "-m"@, message]
}

/// `pull --rebase origin` with the branch.
pub open spec fn pull_args(branch: Seq<char>) -> Seq<Seq<char>> {
    seq!["pull"@, "--rebase"@, "origin"@, branch]
}

/// `push origin` with the branch.
pub open spec fn push_args(branch: Seq<char>) -> Seq<Seq<char>> {
    seq!["push"@, "origin"@, branch]
}

/// Whether local changes are committed and pushed: the checkout is dirty
/// and the profile does more than pull.
pub open spec fn commits(dirty: bool, pull_only: bool) -> bool {
    dirty && !pull_only
}

/// The git commands of one synchronisation, in order: local changes are
/// added and committed unless the profile only pulls; a checkout with an
/// origin pulls with a rebase; and what was committed is pushed to the
/// origin.
pub open spec fn git_sync_args(
    dirty: bool,
    has_origin: bool,
    branch: Seq<char>,
    message: Seq<char>,
    pull_only: bool,
) -> Seq<Seq<Seq<char>>> {
    let commit = if commits(dirty, pull_only) {
        seq![add_args(), commit_args(message)]
    } else {
        Seq::empty()
    };
    let pull = if has_origin {
        seq![pull_args(branch)]
    } else {
        Seq::empty()
    };
    let push = if commits(dirty, pull_only) && has_origin {
        seq![push_args(branch)]
    } else {
        Seq::empty()
    };
    commit + pull + push
}

/// The views of `commands`, in order.
pub open spec fn commands_of(commands: Seq<Invocation>) -> Seq<Command> {
    Seq::new(commands.len(), |i: int| commands[i]@)
}

/// What a probe printed says that the checkout is dirty: it ran and printed
/// something.
pub open spec fn dirty_spec(status: Option<Seq<char>>) -> bool {
    status is Some && status->0.len() > 0
}

/// What a probe printed names the remote `origin`.
pub open spec fn origin_spec(remotes: Option<Seq<char>>) -> bool {
    remotes is Some && has_infix(remotes->0, "origin"@)
}

/// The branch that a probe printed, and `main` where the probe did not run.
pub open spec fn branch_spec(printed: Option<Seq<char>>) -> Seq<char> {
    match printed {
        Some(text) => trimmed(text),
        None => "main"@,
    }
}

/// The branch for a probe whose output, if it ran, was trimmed to `name`.
pub fn branch_or_default(name: Option<String>) -> (r: String)
    ensures
        r@ == match name {
            Some(text) => text@,
            None => "main"@,
        },
{
    match name {
        Some(text) => text,
        None => "main".to_owned(),
    }
}

impl Repo {
    /// The checkout at `path`.
    pub fn new(path: &str) -> (repo: Repo)
        ensures
            repo.path@ == path@,
    {
        Repo { path: path.to_owned() }
    }

    /// The process that runs git with `cmd` in this checkout.
    pub fn git(&self, cmd: Vec<String>) -> (r: Invocation)
        ensures
            r@ == git_in(self.path@, strings_of(cmd@)),
    {
        Invocation {
            program: "git".to_owned(),
            args: cmd,
            cwd: Some(self.path.clone()),
            capture: false,
        }
    }

    fn probe(&self, cmd: Vec<String>) -> (r: Invocation)
        ensures
            r@ == probe_in(self.path@, strings_of(cmd@)),
    {
        Invocation {
            program: "git".to_owned(),
            args: cmd,
            cwd: Some(self.path.clone()),
            capture: true,
        }
    }

    /// The probe for changes that are not committed.
    pub fn status_probe(&self) -> (r: Invocation)
        ensures
            r@ == probe_in(self.path@, status_args()),
    {
        let args = owned(vec!["status", "--porcelain"]);
        assert(strings_of(args@) =~= status_args());
        self.probe(args)
    }

    /// The probe for the remotes.
    pub fn remote_probe(&self) -> (r: Invocation)
        ensures
            r@ == probe_in(self.path@, remote_args()),
    {
        let args = owned(vec!["remote", "-v"]);
        assert(strings_of(args@) =~= remote_args());
        self.probe(args)
    }

    /// The probe for the branch that is checked out.
    pub fn branch_probe(&self) -> (r: Invocation)
        ensures
            r@ == probe_in(self.path@, branch_args()),
    {
        let args = owned(vec!["rev-parse", "--abbrev-ref", "HEAD"]);
        assert(strings_of(args@) =~= branch_args());
        self.probe(args)
    }

    /// Whether the checkout is dirty, from what the status probe printed;
    /// `None` stands for a probe that could not run, which counts as clean.
    pub fn is_dirty(&self, status: Option<&str>) -> (r: bool)
        ensures
            r == dirty_spec(text_view(status)),
    {
        match status {
            Some(text) => char_len(text) > 0,
            None => false,
        }
    }

    /// Whether the checkout has a remote `origin`, from what the remote probe
    /// printed; `None` stands for a probe that could not run.
    pub fn has_remote(&self, remotes: Option<&str>) -> (r: bool)
        ensures
            r == origin_spec(text_view(remotes)),
    {
        match remotes {
            Some(text) => contains(text, "origin"),
            None => false,
        }
    }

    /// The branch that is checked out, from what the branch probe printed;
    /// `None` stands for a probe that could not run.
    pub fn branch_name(&self, printed: Option<&str>) -> (r: String)
        ensures
            r@ == branch_spec(text_view(printed)),
    {
        match printed {
            Some(text) => branch_or_default(Some(trim(text))),
            None => branch_or_default(None),
        }
    }

    /// What the three probes say of the checkout.
    pub fn state(&self, status: Option<&str>, remotes: Option<&str>, branch: Option<&str>) -> (r:
        RepoState)
        ensures
            r.dirty == dirty_spec(text_view(status)),
            r.has_origin == origin_spec(text_view(remotes)),
            r.branch@ == branch_spec(text_view(branch)),
    {
        RepoState {
            dirty: self.is_dirty(status),
            has_origin: self.has_remote(remotes),
            branch: self.branch_name(branch),
        }
    }

    /// `git add --all`.
    pub fn add_all(&self) -> (r: Invocation)
        ensures
            r@ == git_in(self.path@, add_args()),
    {
        let args = owned(vec!["add", "--all"]);
        assert(strings_of(args@) =~= add_args());
        self.git(args)
    }

    /// `git commit -m` with `message`.
    pub fn commit(&self, message: &str) -> (r: Invocation)
        ensures
            r@ == git_in(self.path@, commit_args(message@)),
    {
        let args = owned(vec!["commit", "-m", message]);
        assert(strings_of(args@) =~= commit_args(message@));
        self.git(args)
    }

    /// `git pull --rebase origin` with `branch`.
    pub fn pull(&self, branch: &str) -> (r: Invocation)
        ensures
            r@ == git_in(self.path@, pull_args(branch@)),
    {
        let args = owned(vec!["pull", "--rebase", "origin", branch]);
        assert(strings_of(args@) =~= pull_args(branch@));
        self.git(args)
    }

    /// `git push origin` with `branch`.
    pub fn push(&self, branch: &str) -> (r: Invocation)
        ensures
            r@ == git_in(self.path@, push_args(branch@)),
    {
        let args = owned(vec!["push", "origin", branch]);
        assert(strings_of(args@) =~= push_args(branch@));
        self.git(args)
    }

    /// The git commands that synchronise this checkout, in order.
    pub fn sync(&self, msg: &str, pull_only: bool, state: &RepoState) -> (r: Vec<Invocation>)
        ensures
            commands_of(r@) == in_checkout(
                self.path@,
                git_sync_args(state.dirty, state.has_origin, state.branch@, msg@, pull_only),
            ),
    {
        let mut commands: Vec<Invocation> = Vec::new();
        let repo_is_dirty = state.dirty;
        if repo_is_dirty && !pull_only {
            commands.push(self.add_all());
            commands.push(self.commit(msg));
        }
        if state.has_origin {
            commands.push(self.pull(state.branch.as_str()));
            if repo_is_dirty && !pull_only {
                commands.push(self.push(state.branch.as_str()));
            }
        }
        assert(commands_of(commands@) =~= in_checkout(
            self.path@,
            git_sync_args(state.dirty, state.has_origin, state.branch@, msg@, pull_only),
        ));
        commands
    }
}

/// The characters of an optional piece of text.
pub open spec fn text_view(text: Option<&str>) -> Option<Seq<char>> {
    match text {
        Some(t) => Some(t@),
        None => None,
    }
}

/// A dirty checkout without an origin commits and neither pulls nor pushes.
pub proof fn law_no_origin_only_commits(branch: Seq<char>, message: Seq<char>)
    ensures
        git_sync_args(true, false, branch, message, false) == seq![
            add_args(),
            commit_args(message),
        ],
{
    assert(git_sync_args(true, false, branch, message, false) =~= seq![
        add_args(),
        commit_args(message),
    ]);
}

/// A clean checkout with an origin pulls and neither commits nor pushes.
pub proof fn law_clean_only_pulls(branch: Seq<char>, message: Seq<char>, pull_only: bool)
    ensures
        git_sync_args(false, true, branch, message, pull_only) == seq![pull_args(branch)],
{
    assert(git_sync_args(false, true, branch, message, pull_only) =~= seq![pull_args(branch)]);
}

/// A profile that only pulls never commits or pushes, dirty or not: it pulls
/// where there is an origin and does nothing else.
pub proof fn law_pull_only_never_commits(
    dirty: bool,
    has_origin: bool,
    branch: Seq<char>,
    message: Seq<char>,
)
    ensures
        git_sync_args(dirty, has_origin, branch, message, true) == if has_origin {
            seq![pull_args(branch)]
        } else {
            Seq::empty()
        },
{
    assert(git_sync_args(dirty, has_origin, branch, message, true) =~= if has_origin {
        seq![pull_args(branch)]
    } else {
        Seq::empty()
    });
}

} // verus!
