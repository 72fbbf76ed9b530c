//! Lifecycle hooks: named lists of commands that run around linking and
//! synchronising, and the order in which their processes are started.

use vstd::prelude::*;
use crate::error::{Error, ErrorKind};
use crate::text::{joined, str_eq, strings_of};

verus! {

/// The words that `shlex::split` cuts `input` into, or `None` where it finds
/// the input malformed.
pub uninterp spec fn shlex_split(input: Seq<char>) -> Option<Seq<Seq<char>>>;

/// The words of an optional list of strings.
pub open spec fn words_of(words: Option<Vec<String>>) -> Option<Seq<Seq<char>>> {
    match words {
        Some(list) => Some(strings_of(list@)),
        None => None,
    }
}

/// Calls `shlex::split`, which cuts a command line into words as a POSIX
/// shell does and returns nothing for a line it cannot read. The result
/// depends on the line alone.
#[verifier::external_body]
fn split_words(input: &str) -> (r: Option<Vec<String>>)
    ensures
        words_of(r) == shlex_split(input@),
{
    shlex::split(input)
}

/// A hook given as an interpreter's command line and a script for it.
#[derive(Debug, Clone)]
pub struct HookDefinition {
    pub interpreter: String,
    pub script: String,
}

/// One command of a hook.
#[derive(Debug, Clone)]
pub enum Hook {
    /// A command line for `sh -c`.
    Shell(String),
    /// A script for an interpreter of its own.
    Script(HookDefinition),
}

/// A process to start and wait for.
#[derive(Debug, Clone, PartialEq, Eq)]
pub struct Invocation {
    pub program: String,
    pub args: Vec<String>,
    /// The directory to start it in; `None` for the directory of the caller.
    pub cwd: Option<String>,
    /// Whether what it prints is read by the caller; otherwise it shares
    /// the input and output of the caller.
    pub capture: bool,
}

/// A process to start, as plain values.
pub struct Command {
    pub program: Seq<char>,
    pub args: Seq<Seq<char>>,
    pub cwd: Option<Seq<char>>,
    pub capture: bool,
}

impl View for Invocation {
    type V = Command;

    open spec fn view(&self) -> Command {
        Command {
            program: self.program@,
            args: strings_of(self.args@),
            cwd: match self.cwd {
                Some(dir) => Some(dir@),
                None => None,
            },
            capture: self.capture,
        }
    }
}

/// The process started in `cwd` whose program is the first word of `argv`
/// and whose arguments are the rest.
pub open spec fn argv_command(argv: Seq<Seq<char>>, cwd: Seq<char>) -> Command {
    Command { program: argv[0], args: argv.skip(1), cwd: Some(cwd), capture: false }
}

/// `sh -c` with `script` as its command line, started in `cwd`.
pub open spec fn shell_command(script: Seq<char>, cwd: Seq<char>) -> Command {
    Command { program: "sh"@, args: seq!["-c"@, script], cwd: Some(cwd), capture: false }
}

/// The process for a script whose interpreter's command line was cut into
/// `words`: the script is the last argument. There is none where the
/// interpreter's line could not be read.
pub open spec fn interpreted(words: Option<Seq<Seq<char>>>, script: Seq<char>, cwd: Seq<char>)
    -> Option<Command> {
    match words {
        Some(list) => Some(argv_command(list.push(script), cwd)),
        None => None,
    }
}

/// The process that `hook` starts in the directory `cwd`.
pub open spec fn hook_command(hook: Hook, cwd: Seq<char>) -> Option<Command> {
    match hook {
        Hook::Shell(script) => Some(shell_command(script@, cwd)),
        Hook::Script(definition) => interpreted(
            shlex_split(definition.interpreter@),
            definition.script@,
            cwd,
        ),
    }
}

/// What is said of an interpreter's command line that cannot be read.
pub open spec fn malformed_message(interpreter: Seq<char>) -> Seq<char> {
    "malformed interpreter: "@ + interpreter
}

/// The interpreter's command line of `hook`; a shell hook has `sh -c`.
pub open spec fn interpreter_of(hook: Hook) -> Seq<char> {
    match hook {
        Hook::Shell(script) => "sh -c"@,
        Hook::Script(definition) => definition.interpreter@,
    }
}

impl Invocation {
    /// The process for `script` under an interpreter whose command line was
    /// cut into `words`, started in `working_directory`.
    pub fn interpreted(
        words: Option<Vec<String>>,
        interpreter: &str,
        script: &str,
        working_directory: &str,
    ) -> (r: Result<Invocation, Error>)
        ensures
            match r {
                Ok(invocation) => interpreted(words_of(words), script@, working_directory@) == Some(
                    invocation@,
                ),
                Err(e) => words is None && e.is(
                    ErrorKind::Config,
                    Seq::empty(),
                    malformed_message(interpreter@),
                ),
            },
    {
        match words {
            Some(list) => {
                let ghost cut = strings_of(list@);
                let mut argv = list;
                argv.push(script.to_owned());
                assert(strings_of(argv@) =~= cut.push(script@));
                let ghost whole = argv@;
                let shell = argv.remove(0);
                assert(strings_of(argv@) =~= strings_of(whole).skip(1));
                Ok(
                    Invocation {
                        program: shell,
                        args: argv,
                        cwd: Some(working_directory.to_owned()),
                        capture: false,
                    },
                )
            },
            None => Err(
                Error::new(
                    ErrorKind::Config,
                    joined("malformed interpreter: ", interpreter).as_str(),
                ),
            ),
        }
    }
}

impl Hook {
    /// The process that this hook starts in `working_directory`. Only a
    /// script whose interpreter's command line cannot be read has none.
    pub fn invocation(&self, working_directory: &str) -> (r: Result<Invocation, Error>)
        ensures
            match r {
                Ok(invocation) => hook_command(*self, working_directory@) == Some(invocation@),
                Err(e) => hook_command(*self, working_directory@) is None && e.is(
                    ErrorKind::Config,
                    Seq::empty(),
                    malformed_message(interpreter_of(*self)),
                ),
            },
    {
        match self {
            Hook::Shell(script) => {
                let mut args: Vec<String> = Vec::new();
                args.push("-c".to_owned());
                args.push(script.clone());
                let invocation = Invocation {
                    program: "sh".to_owned(),
                    args,
                    cwd: Some(working_directory.to_owned()),
                    capture: false,
                };
                assert(invocation@.args =~= seq!["-c"@, script@]);
                Ok(invocation)
            },
            Hook::Script(definition) => {
                let words = split_words(definition.interpreter.as_str());
                Invocation::interpreted(
                    words,
                    definition.interpreter.as_str(),
                    definition.script.as_str(),
                    working_directory,
                )
            },
        }
    }
}

/// The hooks of one name.
#[derive(Debug, Clone)]
struct HookList {
    name: String,
    hooks: Vec<Hook>,
}

/// The hooks of a profile, by name. A name that has no hooks is not an
/// error: nothing runs for it.
#[derive(Debug, Clone)]
pub struct Hooks {
    entries: Vec<HookList>,
}

spec fn find_hooks(entries: Seq<HookList>, name: Seq<char>) -> Option<Seq<Hook>>
    decreases entries.len(),
{
    if entries.len() == 0 {
        None
    } else if entries[0].name@ == name {
        Some(entries[0].hooks@)
    } else {
        find_hooks(entries.skip(1), name)
    }
}

proof fn lemma_find_skip(entries: Seq<HookList>, name: Seq<char>, n: int)
    requires
        0 <= n <= entries.len(),
        forall|j: int| 0 <= j < n ==> (#[trigger] entries[j]).name@ != name,
    ensures
        find_hooks(entries, name) == find_hooks(entries.skip(n), name),
    decreases n,
{
    if n == 0 {
        assert(entries.skip(0) =~= entries);
    } else {
        assert(entries[0].name@ != name);
        let rest = entries.skip(1);
        assert forall|j: int| 0 <= j < n - 1 implies (#[trigger] rest[j]).name@ != name by {
            assert(rest[j] == entries[j + 1]);
        }
        lemma_find_skip(rest, name, n - 1);
        assert(rest.skip(n - 1) =~= entries.skip(n));
    }
}

proof fn lemma_find_update(entries: Seq<HookList>, at: int, entry: HookList, name: Seq<char>)
    requires
        0 <= at < entries.len(),
        entry.name@ == entries[at].name@,
    ensures
        find_hooks(entries.update(at, entry), name) == if find_hooks(entries, name) is Some
            && entry.name@ == name && forall|j: int|
            0 <= j < at ==> (#[trigger] entries[j]).name@ != name {
            Some(entry.hooks@)
        } else {
            find_hooks(entries, name)
        },
    decreases entries.len(),
{
    let updated = entries.update(at, entry);
    if at == 0 {
        assert(updated.skip(1) =~= entries.skip(1));
    } else {
        assert(updated[0] == entries[0]);
        if entries[0].name@ == name {
            assert(!(forall|j: int| 0 <= j < at ==> (#[trigger] entries[j]).name@ != name));
        } else {
            let rest = entries.skip(1);
            assert(updated.skip(1) =~= rest.update(at - 1, entry));
            lemma_find_update(rest, at - 1, entry, name);
            if forall|j: int| 0 <= j < at ==> (#[trigger] entries[j]).name@ != name {
                assert forall|j: int| 0 <= j < at - 1 implies (#[trigger] rest[j]).name@
                    != name by {
                    assert(rest[j] == entries[j + 1]);
                }
            }
            if forall|j: int| 0 <= j < at - 1 ==> (#[trigger] rest[j]).name@ != name {
                assert forall|j: int| 0 <= j < at implies (#[trigger] entries[j]).name@
                    != name by {
                    if j > 0 {
                        assert(rest[j - 1] == entries[j]);
                    }
                }
            }
        }
    }
}

proof fn lemma_find_push(entries: Seq<HookList>, entry: HookList, name: Seq<char>)
    ensures
        find_hooks(entries.push(entry), name) == if find_hooks(entries, name) is Some {
            find_hooks(entries, name)
        } else if entry.name@ == name {
            Some(entry.hooks@)
        } else {
            None
        },
    decreases entries.len(),
{
    let pushed = entries.push(entry);
    if entries.len() == 0 {
        assert(pushed[0] == entry);
        assert(pushed.skip(1) =~= Seq::<HookList>::empty());
        assert(find_hooks(pushed.skip(1), name) is None);
    } else {
        assert(pushed[0] == entries[0]);
        assert(pushed.skip(1) =~= entries.skip(1).push(entry));
        lemma_find_push(entries.skip(1), entry, name);
    }
}

/// What a hook run is told: that it begins, or how the process it last
/// started ended.
#[derive(Debug, Clone, Copy, PartialEq, Eq, Structural)]
pub enum HookEvent {
    /// Nothing has run yet.
    Begin,
    /// The process of the hook at `index` has ended.
    Exited { index: usize, success: bool },
    /// The process of the hook at `index` could not be started.
    SpawnFailed { index: usize },
}

/// What a hook run does next.
#[derive(Debug, Clone)]
pub enum HookAction {
    /// Start the process of the hook at `index` and wait for it.
    Run { index: usize, invocation: Invocation },
    /// Every hook has run.
    Done,
    /// The run ends here with an error; the hooks that are left do not run.
    Fail(Error),
}

/// What a hook run does next, as plain values.
pub enum HookOutcome {
    Run { index: int, command: Command },
    Done,
    Fail { kind: ErrorKind, message: Seq<char> },
}

impl HookAction {
    /// This action is the one that `outcome` describes, with `path` as the
    /// profile that an error names.
    pub open spec fn is_outcome_at(&self, outcome: HookOutcome, path: Seq<char>) -> bool {
        match (*self, outcome) {
            (
                HookAction::Run { index, invocation },
                HookOutcome::Run { index: at, command },
            ) => index == at && invocation@ == command,
            (HookAction::Done, HookOutcome::Done) => true,
            (HookAction::Fail(e), HookOutcome::Fail { kind, message }) => e.is(kind, path, message),
            _ => false,
        }
    }

    /// This action is the one that `outcome` describes; an error names no
    /// profile.
    pub open spec fn is_outcome(&self, outcome: HookOutcome) -> bool {
        self.is_outcome_at(outcome, Seq::empty())
    }
}

/// The step that starts the hook at `index`: the run is done when the name
/// has no hooks or none is left, and fails when the hook has no process.
pub open spec fn start_hook(hooks: Option<Seq<Hook>>, cwd: Seq<char>, index: int) -> HookOutcome {
    match hooks {
        None => HookOutcome::Done,
        Some(list) => if 0 <= index < list.len() {
            match hook_command(list[index], cwd) {
                Some(command) => HookOutcome::Run { index, command },
                None => HookOutcome::Fail {
                    kind: ErrorKind::Config,
                    message: malformed_message(interpreter_of(list[index])),
                },
            }
        } else {
            HookOutcome::Done
        },
    }
}

/// The next step of the run of the hooks of `name` in the directory `cwd`.
/// The hooks run in order, each after the one before it has ended well; a
/// process that cannot be started or that ends with a failure status ends
/// the run with an error.
pub open spec fn hook_step(
    hooks: Option<Seq<Hook>>,
    name: Seq<char>,
    cwd: Seq<char>,
    event: HookEvent,
) -> HookOutcome {
    match event {
        HookEvent::Begin => start_hook(hooks, cwd, 0),
        HookEvent::Exited { index, success } => if success {
            start_hook(hooks, cwd, index + 1)
        } else {
            HookOutcome::Fail { kind: ErrorKind::HookFailed, message: name }
        },
        HookEvent::SpawnFailed { index } => HookOutcome::Fail {
            kind: ErrorKind::ProcessSpawn,
            message: name,
        },
    }
}

/// The name of the hooks that run before the operation `name`.
pub open spec fn before_name(name: Seq<char>) -> Seq<char> {
    "before_"@ + name
}

/// The name of the hooks that run after the operation `name`.
pub open spec fn after_name(name: Seq<char>) -> Seq<char> {
    "after_"@ + name
}

impl View for Hooks {
    type V = Map<Seq<char>, Seq<Hook>>;

    closed spec fn view(&self) -> Map<Seq<char>, Seq<Hook>> {
        Map::new(
            |name: Seq<char>| find_hooks(self.entries@, name) is Some,
            |name: Seq<char>| find_hooks(self.entries@, name)->0,
        )
    }
}

impl Hooks {
    /// The hooks of `name`, if the name has any.
    pub open spec fn hooks_for(&self, name: Seq<char>) -> Option<Seq<Hook>> {
        if self@.contains_key(name) {
            Some(self@[name])
        } else {
            None
        }
    }

    /// No hooks at all.
    pub fn new() -> (hooks: Hooks)
        ensures
            hooks@ == Map::<Seq<char>, Seq<Hook>>::empty(),
    {
        let hooks = Hooks { entries: Vec::new() };
        assert(hooks@ =~= Map::<Seq<char>, Seq<Hook>>::empty());
        hooks
    }

    /// Gives `name` the hooks `hooks`, in place of those it had.
    pub fn insert(&mut self, name: String, hooks: Vec<Hook>)
        ensures
            final(self)@ == old(self)@.insert(name@, hooks@),
    {
        let ghost before = self.entries@;
        let entry = HookList { name, hooks };
        let mut i: usize = 0;
        while i < self.entries.len()
            invariant
                i <= self.entries.len(),
                self.entries@ == before,
                old(self).entries@ == before,
                entry.name == name,
                entry.hooks == hooks,
                forall|j: int| 0 <= j < i ==> (#[trigger] before[j]).name@ != entry.name@,
            decreases self.entries.len() - i,
        {
            if str_eq(self.entries[i].name.as_str(), entry.name.as_str()) {
                proof {
                    assert forall|n: Seq<char>|
                        find_hooks(before.update(i as int, entry), n) == if n == entry.name@ {
                            Some(entry.hooks@)
                        } else {
                            find_hooks(before, n)
                        } by {
                        lemma_find_update(before, i as int, entry, n);
                        if n == entry.name@ {
                            lemma_find_skip(before, n, i as int);
                            assert(before.skip(i as int)[0] == before[i as int]);
                        }
                    }
                }
                self.entries.set(i, entry);
                assert(self@ =~= old(self)@.insert(entry.name@, entry.hooks@));
                return ;
            }
            i = i + 1;
        }
        proof {
            assert forall|n: Seq<char>|
                find_hooks(before.push(entry), n) == if n == entry.name@ {
                    Some(entry.hooks@)
                } else {
                    find_hooks(before, n)
                } by {
                lemma_find_push(before, entry, n);
                if n == entry.name@ {
                    lemma_find_skip(before, n, before.len() as int);
                }
            }
        }
        self.entries.push(entry);
        assert(self@ =~= old(self)@.insert(entry.name@, entry.hooks@));
    }

    fn find(&self, name: &str) -> (r: Option<&Vec<Hook>>)
        ensures
            match r {
                Some(list) => self.hooks_for(name@) == Some(list@),
                None => self.hooks_for(name@) is None,
            },
    {
        let mut i: usize = 0;
        while i < self.entries.len()
            invariant
                i <= self.entries.len(),
                forall|j: int| 0 <= j < i ==> (#[trigger] self.entries@[j]).name@ != name@,
            decreases self.entries.len() - i,
        {
            if str_eq(self.entries[i].name.as_str(), name) {
                proof {
                    lemma_find_skip(self.entries@, name@, i as int);
                    assert(self.entries@.skip(i as int)[0] == self.entries@[i as int]);
                }
                return Some(&self.entries[i].hooks);
            }
            i = i + 1;
        }
        proof {
            lemma_find_skip(self.entries@, name@, self.entries@.len() as int);
        }
        None
    }

    /// The next step of the run of the hooks of `name`, whose processes
    /// start in `working_directory`.
    pub fn run_hook(&self, name: &str, working_directory: &str, event: HookEvent) -> (action:
        HookAction)
        ensures
            action.is_outcome(
                hook_step(self.hooks_for(name@), name@, working_directory@, event),
            ),
    {
        let next: Option<usize> = match event {
            HookEvent::Begin => Some(0),
            HookEvent::Exited { index, success } => {
                if !success {
                    return HookAction::Fail(Error::new(ErrorKind::HookFailed, name));
                }
                if index == usize::MAX {
                    None
                } else {
                    Some(index + 1)
                }
            },
            HookEvent::SpawnFailed { index } => {
                return HookAction::Fail(Error::new(ErrorKind::ProcessSpawn, name));
            },
        };
        match self.find(name) {
            Some(hooks) => {
                let count: usize = hooks.len();
                match next {
                    Some(at) => {
                        if at < count {
                            match hooks[at].invocation(working_directory) {
                                Ok(invocation) => HookAction::Run { index: at, invocation },
                                Err(e) => HookAction::Fail(e),
                            }
                        } else {
                            HookAction::Done
                        }
                    },
                    None => HookAction::Done,
                }
            },
            None => HookAction::Done,
        }
    }

    /// The next step of the run of the hooks that come before the operation
    /// `name`.
    pub fn pre(&self, wd: &str, name: &str, event: HookEvent) -> (action: HookAction)
        ensures
            action.is_outcome(
                hook_step(self.hooks_for(before_name(name@)), before_name(name@), wd@, event),
            ),
    {
        self.run_hook(joined("before_", name).as_str(), wd, event)
    }

    /// The next step of the run of the hooks that come after the operation
    /// `name`.
    pub fn post(&self, wd: &str, name: &str, event: HookEvent) -> (action: HookAction)
        ensures
            action.is_outcome(
                hook_step(self.hooks_for(after_name(name@)), after_name(name@), wd@, event),
            ),
    {
        self.run_hook(joined("after_", name).as_str(), wd, event)
    }
}

/// Running the hooks of a name that has none is done at once: nothing is
/// started and nothing fails.
pub proof fn law_absent_hook_is_noop(hooks: Hooks, name: Seq<char>, cwd: Seq<char>)
    requires
        !hooks@.contains_key(name),
    ensures
        hook_step(hooks.hooks_for(name), name, cwd, HookEvent::Begin) == HookOutcome::Done,
{
}

/// A hook whose process ends with a failure status, or cannot be started,
/// ends the run: whatever hooks are left, none of them is started.
pub proof fn law_failed_hook_aborts(
    hooks: Option<Seq<Hook>>,
    name: Seq<char>,
    cwd: Seq<char>,
    index: usize,
)
    ensures
        hook_step(hooks, name, cwd, HookEvent::Exited { index, success: false })
            == (HookOutcome::Fail { kind: ErrorKind::HookFailed, message: name }),
        hook_step(hooks, name, cwd, HookEvent::SpawnFailed { index }) == (HookOutcome::Fail {
            kind: ErrorKind::ProcessSpawn,
            message: name,
        }),
{
}

/// The hooks of a name run one after the other in their order: after the
/// hook at `index` has ended well, the next step starts the hook after it,
/// and the run is done after the last.
pub proof fn law_hooks_run_in_order(
    list: Seq<Hook>,
    name: Seq<char>,
    cwd: Seq<char>,
    index: usize,
)
    requires
        index < list.len(),
    ensures
        hook_step(Some(list), name, cwd, HookEvent::Exited { index, success: true })
            == start_hook(Some(list), cwd, index + 1),
        index + 1 == list.len() ==> hook_step(
            Some(list),
            name,
            cwd,
            HookEvent::Exited { index, success: true },
        ) == HookOutcome::Done,
{
}

} // verus!
