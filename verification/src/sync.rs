//! Synchronising a profile with its remote: which commit message is used,
//! which hooks and git commands run, in which order, and when a failure ends
//! the run.

use vstd::prelude::*;
use crate::error::ErrorKind;
use crate::hooks::{Command, Invocation};
use crate::repo::{
    add_args, commit_args, commits, git_in, git_sync_args, in_checkout, pull_args, push_args, Repo,
    RepoState,
};
use crate::text::char_len;

verus! {

/// Where the message of a commit comes from.
#[derive(Debug, Clone, Copy, PartialEq, Eq, Structural)]
pub enum MessageSource {
    /// The caller gave one.
    Given,
    /// The user is asked for one.
    Prompt,
    /// The fixed message is used.
    Fixed,
}

/// The message of a commit that nobody worded.
pub open spec fn default_message() -> Seq<char> {
    "Dotfiles managed by DFM! https://github.com/chasinglogic/dfm"@
}

/// A message that the caller gave is used; without one the user is asked
/// where the profile says so, and the fixed message is used otherwise.
pub open spec fn message_source(message: Seq<char>, prompt: bool) -> MessageSource {
    if message.len() > 0 {
        MessageSource::Given
    } else if prompt {
        MessageSource::Prompt
    } else {
        MessageSource::Fixed
    }
}

/// The user has to be asked for a message: there is something to commit and
/// the message is to come from the user.
pub open spec fn needs_prompt(dirty: bool, pull_only: bool, message: Seq<char>, prompt: bool)
    -> bool {
    commits(dirty, pull_only) && message_source(message, prompt) == MessageSource::Prompt
}

/// One step of a synchronisation, as plain values.
pub enum Step {
    /// Run the hooks of this name.
    Hook(Seq<char>),
    /// Run this git command.
    Git(Command),
    /// Synchronise the module at this index, with no message given.
    Module(int),
}

/// One step of a synchronisation.
#[derive(Debug, Clone, PartialEq, Eq)]
pub enum SyncStep {
    /// Run the hooks of this name.
    Hook(String),
    /// Run this git command.
    Git(Invocation),
    /// Synchronise the module at this index, with no message given.
    Module(usize),
}

impl View for SyncStep {
    type V = Step;

    open spec fn view(&self) -> Step {
        match self {
            SyncStep::Hook(name) => Step::Hook(name@),
            SyncStep::Git(invocation) => Step::Git(invocation@),
            SyncStep::Module(index) => Step::Module(*index as int),
        }
    }
}

/// The views of `steps`, in order.
pub open spec fn steps_of(steps: Seq<SyncStep>) -> Seq<Step> {
    Seq::new(steps.len(), |i: int| steps[i]@)
}

/// One step for each of `count` modules, in their order.
pub open spec fn module_steps(count: nat) -> Seq<Step> {
    Seq::new(count, |i: int| Step::Module(i))
}

/// The steps that commit local changes with `message`.
pub open spec fn commit_steps(path: Seq<char>, message: Seq<char>) -> Seq<Step> {
    seq![
        Step::Hook("before_sync"@),
        Step::Git(git_in(path, add_args())),
        Step::Git(git_in(path, commit_args(message))),
    ]
}

/// The steps that synchronise the profile at `path`, in order. `message` is
/// the message to commit with, and `None` where the user was asked and gave
/// none: the commit is then left out and everything else stays.
///
/// Local changes are committed, after the `before_sync` hooks, when the
/// checkout is dirty and the profile does more than pull. A checkout with an
/// origin then pulls with a rebase. A dirty checkout with an origin pushes,
/// unless the profile only pulls, and runs the `after_sync_dirty` hooks; in
/// every other case the `after_sync_clean` hooks run instead. The
/// `after_sync` hooks run in any case, and every module is synchronised
/// after that.
pub open spec fn sync_steps(
    path: Seq<char>,
    dirty: bool,
    has_origin: bool,
    branch: Seq<char>,
    pull_only: bool,
    message: Option<Seq<char>>,
    modules: nat,
) -> Seq<Step> {
    let commit = if commits(dirty, pull_only) && message is Some {
        commit_steps(path, message->0)
    } else {
        Seq::empty()
    };
    let pull = if has_origin {
        seq![Step::Git(git_in(path, pull_args(branch)))]
    } else {
        Seq::empty()
    };
    let publish = if commits(dirty, pull_only) && has_origin {
        seq![Step::Git(git_in(path, push_args(branch))), Step::Hook("after_sync_dirty"@)]
    } else {
        seq![Step::Hook("after_sync_clean"@)]
    };
    commit + pull + publish + seq![Step::Hook("after_sync"@)] + module_steps(modules)
}

/// The git commands among `steps`, in order.
pub open spec fn git_commands_in(steps: Seq<Step>) -> Seq<Command>
    decreases steps.len(),
{
    if steps.len() == 0 {
        Seq::empty()
    } else {
        match steps.last() {
            Step::Git(command) => git_commands_in(steps.drop_last()).push(command),
            _ => git_commands_in(steps.drop_last()),
        }
    }
}

/// The message that a commit is made with when the user is not asked.
pub open spec fn unprompted_message(message: Seq<char>) -> Seq<char> {
    if message.len() > 0 {
        message
    } else {
        default_message()
    }
}

/// How a step ended.
#[derive(Debug, Clone, Copy, PartialEq, Eq, Structural)]
pub enum StepResult {
    /// It ran and ended well.
    Success,
    /// It ran and ended with a failure status.
    Failure,
    /// Its process could not be started.
    SpawnFailed,
}

/// What follows the step at `index` of `count` steps: the next step, the end
/// of the run after the last one, or the error that ends the run at once
/// when the step did not end well.
pub open spec fn after_step(count: nat, index: nat, result: StepResult) -> Result<
    Option<nat>,
    ErrorKind,
> {
    match result {
        StepResult::Failure => Err(ErrorKind::GitCommand),
        StepResult::SpawnFailed => Err(ErrorKind::ProcessSpawn),
        StepResult::Success => if index + 1 < count {
            Ok(Some(index + 1))
        } else {
            Ok(None)
        },
    }
}

/// What follows the step at `index` of `count` steps.
pub fn advance(count: usize, index: usize, result: StepResult) -> (r: Result<
    Option<usize>,
    ErrorKind,
>)
    ensures
        match (r, after_step(count as nat, index as nat, result)) {
            (Ok(Some(next)), Ok(Some(expected))) => next == expected,
            (Ok(None), Ok(None)) => true,
            (Err(kind), Err(expected)) => kind == expected,
            _ => false,
        },
{
    match result {
        StepResult::Failure => Err(ErrorKind::GitCommand),
        StepResult::SpawnFailed => Err(ErrorKind::ProcessSpawn),
        StepResult::Success => {
            if index < count && index + 1 < count {
                Ok(Some(index + 1))
            } else {
                Ok(None)
            }
        },
    }
}

/// Where the message of a commit comes from.
pub fn choose_message(commit_msg: &str, prompt: bool) -> (r: MessageSource)
    ensures
        r == message_source(commit_msg@, prompt),
{
    if char_len(commit_msg) > 0 {
        MessageSource::Given
    } else if prompt {
        MessageSource::Prompt
    } else {
        MessageSource::Fixed
    }
}

/// The steps that synchronise the checkout `repo` of a profile with
/// `modules` modules.
pub fn plan_steps(
    repo: &Repo,
    state: &RepoState,
    pull_only: bool,
    message: Option<&str>,
    modules: usize,
) -> (steps: Vec<SyncStep>)
    ensures
        steps_of(steps@) == sync_steps(
            repo.path@,
            state.dirty,
            state.has_origin,
            state.branch@,
            pull_only,
            crate::repo::text_view(message),
            modules as nat,
        ),
{
    let mut steps: Vec<SyncStep> = Vec::new();
    let dirty = state.dirty && !pull_only;
    if dirty {
        match message {
            Some(msg) => {
                steps.push(SyncStep::Hook("before_sync".to_owned()));
                steps.push(SyncStep::Git(repo.add_all()));
                steps.push(SyncStep::Git(repo.commit(msg)));
            },
            None => {},
        }
    }
    if state.has_origin {
        steps.push(SyncStep::Git(repo.pull(state.branch.as_str())));
    }
    if dirty && state.has_origin {
        steps.push(SyncStep::Git(repo.push(state.branch.as_str())));
        steps.push(SyncStep::Hook("after_sync_dirty".to_owned()));
    } else {
        steps.push(SyncStep::Hook("after_sync_clean".to_owned()));
    }
    steps.push(SyncStep::Hook("after_sync".to_owned()));
    let ghost own = steps@;
    assert(steps_of(own) =~= sync_steps(
        repo.path@,
        state.dirty,
        state.has_origin,
        state.branch@,
        pull_only,
        crate::repo::text_view(message),
        0,
    ));
    let mut i: usize = 0;
    while i < modules
        invariant
            i <= modules,
            steps_of(steps@) == steps_of(own) + module_steps(i as nat),
        decreases modules - i,
    {
        let ghost before = steps@;
        steps.push(SyncStep::Module(i));
        assert(steps_of(steps@) =~= steps_of(before).push(Step::Module(i as int)));
        assert(module_steps((i + 1) as nat) =~= module_steps(i as nat).push(Step::Module(i as int)));
        i = i + 1;
    }
    assert(steps_of(steps@) =~= sync_steps(
        repo.path@,
        state.dirty,
        state.has_origin,
        state.branch@,
        pull_only,
        crate::repo::text_view(message),
        modules as nat,
    ));
    steps
}

/// A dirty checkout without an origin commits and attempts neither a pull
/// nor a push.
pub proof fn law_dirty_without_origin(
    path: Seq<char>,
    branch: Seq<char>,
    message: Seq<char>,
    modules: nat,
)
    ensures
        sync_steps(path, true, false, branch, false, Some(message), modules) == seq![
            Step::Hook("before_sync"@),
            Step::Git(git_in(path, add_args())),
            Step::Git(git_in(path, commit_args(message))),
            Step::Hook("after_sync_clean"@),
            Step::Hook("after_sync"@),
        ] + module_steps(modules),
{
    assert(sync_steps(path, true, false, branch, false, Some(message), modules) =~= seq![
        Step::Hook("before_sync"@),
        Step::Git(git_in(path, add_args())),
        Step::Git(git_in(path, commit_args(message))),
        Step::Hook("after_sync_clean"@),
        Step::Hook("after_sync"@),
    ] + module_steps(modules));
}

/// A clean checkout with an origin pulls and neither commits nor pushes.
pub proof fn law_clean_with_origin(
    path: Seq<char>,
    branch: Seq<char>,
    pull_only: bool,
    message: Option<Seq<char>>,
    modules: nat,
)
    ensures
        sync_steps(path, false, true, branch, pull_only, message, modules) == seq![
            Step::Git(git_in(path, pull_args(branch))),
            Step::Hook("after_sync_clean"@),
            Step::Hook("after_sync"@),
        ] + module_steps(modules),
{
    assert(sync_steps(path, false, true, branch, pull_only, message, modules) =~= seq![
        Step::Git(git_in(path, pull_args(branch))),
        Step::Hook("after_sync_clean"@),
        Step::Hook("after_sync"@),
    ] + module_steps(modules));
}

/// The steps of a profile that only pulls and has an origin, or has none.
pub open spec fn pull_only_steps(path: Seq<char>, has_origin: bool, branch: Seq<char>) -> Seq<Step> {
    if has_origin {
        seq![
            Step::Git(git_in(path, pull_args(branch))),
            Step::Hook("after_sync_clean"@),
            Step::Hook("after_sync"@),
        ]
    } else {
        seq![Step::Hook("after_sync_clean"@), Step::Hook("after_sync"@)]
    }
}

/// A profile that only pulls never commits or pushes, however dirty its
/// checkout is: the only git command it may run is the pull.
pub proof fn law_pull_only(
    path: Seq<char>,
    dirty: bool,
    has_origin: bool,
    branch: Seq<char>,
    message: Option<Seq<char>>,
    modules: nat,
)
    ensures
        sync_steps(path, dirty, has_origin, branch, true, message, modules) == pull_only_steps(
            path,
            has_origin,
            branch,
        ) + module_steps(modules),
{
    assert(sync_steps(path, dirty, has_origin, branch, true, message, modules) =~= pull_only_steps(
        path,
        has_origin,
        branch,
    ) + module_steps(modules));
}

/// When the user is asked for a message and gives none, the commit is left
/// out and nothing else changes: the steps with a message are the commit
/// followed by the steps without one.
pub proof fn law_cancelled_prompt(
    path: Seq<char>,
    dirty: bool,
    has_origin: bool,
    branch: Seq<char>,
    pull_only: bool,
    message: Seq<char>,
    modules: nat,
)
    ensures
        sync_steps(path, dirty, has_origin, branch, pull_only, Some(message), modules) == (
        if commits(dirty, pull_only) {
            commit_steps(path, message)
        } else {
            Seq::empty()
        }) + sync_steps(path, dirty, has_origin, branch, pull_only, None, modules),
{
    assert(sync_steps(path, dirty, has_origin, branch, pull_only, Some(message), modules) =~= (
    if commits(dirty, pull_only) {
        commit_steps(path, message)
    } else {
        Seq::empty()
    }) + sync_steps(path, dirty, has_origin, branch, pull_only, None, modules));
}

proof fn lemma_git_commands_of_both(first: Seq<Step>, second: Seq<Step>)
    ensures
        git_commands_in(first + second) == git_commands_in(first) + git_commands_in(second),
    decreases second.len(),
{
    if second.len() == 0 {
        assert(first + second =~= first);
        assert(git_commands_in(first) + git_commands_in(second) =~= git_commands_in(first));
    } else {
        let whole = first + second;
        assert(whole.drop_last() =~= first + second.drop_last());
        assert(whole.last() == second.last());
        lemma_git_commands_of_both(first, second.drop_last());
        match second.last() {
            Step::Git(command) => {
                assert(git_commands_in(first) + git_commands_in(second.drop_last()).push(command)
                    =~= (git_commands_in(first) + git_commands_in(second.drop_last())).push(
                    command,
                ));
            },
            _ => {},
        }
    }
}

proof fn lemma_git_commands_of_one(step: Step)
    ensures
        git_commands_in(seq![step]) == match step {
            Step::Git(command) => seq![command],
            _ => Seq::empty(),
        },
{
    assert(seq![step].drop_last() =~= Seq::<Step>::empty());
    assert(seq![step].last() == step);
    assert(git_commands_in(Seq::<Step>::empty()) =~= Seq::<Command>::empty());
    match step {
        Step::Git(command) => {
            assert(Seq::<Command>::empty().push(command) =~= seq![command]);
        },
        _ => {},
    }
}

proof fn lemma_modules_run_no_git(count: nat)
    ensures
        git_commands_in(module_steps(count)) == Seq::<Command>::empty(),
    decreases count,
{
    if count > 0 {
        assert(module_steps(count).drop_last() =~= module_steps((count - 1) as nat));
        lemma_modules_run_no_git((count - 1) as nat);
    }
}

/// The git commands among the steps of a synchronisation are those that
/// synchronise the checkout, in the same order: hooks and modules add none.
pub proof fn law_git_commands_of_sync(
    path: Seq<char>,
    dirty: bool,
    has_origin: bool,
    branch: Seq<char>,
    pull_only: bool,
    message: Seq<char>,
    modules: nat,
)
    ensures
        git_commands_in(
            sync_steps(path, dirty, has_origin, branch, pull_only, Some(message), modules),
        ) == in_checkout(path, git_sync_args(dirty, has_origin, branch, message, pull_only)),
{
    let hook = |name: Seq<char>| seq![Step::Hook(name)];
    let git = |args: Seq<Seq<char>>| seq![Step::Git(git_in(path, args))];
    let committing = commits(dirty, pull_only);
    let commit = if committing {
        hook("before_sync"@) + git(add_args()) + git(commit_args(message))
    } else {
        Seq::empty()
    };
    let pull = if has_origin {
        git(pull_args(branch))
    } else {
        Seq::empty()
    };
    let publish = if committing && has_origin {
        git(push_args(branch)) + hook("after_sync_dirty"@)
    } else {
        hook("after_sync_clean"@)
    };
    let steps = commit + pull + publish + hook("after_sync"@) + module_steps(modules);
    assert(steps =~= sync_steps(path, dirty, has_origin, branch, pull_only, Some(message), modules));
    lemma_git_commands_of_one(Step::Hook("before_sync"@));
    lemma_git_commands_of_one(Step::Hook("after_sync_dirty"@));
    lemma_git_commands_of_one(Step::Hook("after_sync_clean"@));
    lemma_git_commands_of_one(Step::Hook("after_sync"@));
    lemma_git_commands_of_one(Step::Git(git_in(path, add_args())));
    lemma_git_commands_of_one(Step::Git(git_in(path, commit_args(message))));
    lemma_git_commands_of_one(Step::Git(git_in(path, pull_args(branch))));
    lemma_git_commands_of_one(Step::Git(git_in(path, push_args(branch))));
    lemma_modules_run_no_git(modules);
    lemma_git_commands_of_both(hook("before_sync"@), git(add_args()));
    lemma_git_commands_of_both(hook("before_sync"@) + git(add_args()), git(commit_args(message)));
    lemma_git_commands_of_both(git(push_args(branch)), hook("after_sync_dirty"@));
    lemma_git_commands_of_both(commit, pull);
    lemma_git_commands_of_both(commit + pull, publish);
    lemma_git_commands_of_both(commit + pull + publish, hook("after_sync"@));
    lemma_git_commands_of_both(
        commit + pull + publish + hook("after_sync"@),
        module_steps(modules),
    );
    assert(git_commands_in(Seq::<Step>::empty()) =~= Seq::<Command>::empty());
    assert(git_commands_in(steps) =~= in_checkout(
        path,
        git_sync_args(dirty, has_origin, branch, message, pull_only),
    ));
}

/// A step that does not end well ends the run, whatever steps are left.
pub proof fn law_failure_aborts(count: nat, index: nat)
    ensures
        after_step(count, index, StepResult::Failure) is Err,
        after_step(count, index, StepResult::SpawnFailed) is Err,
{
}

} // verus!
