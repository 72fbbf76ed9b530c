//! A profile: a directory of dotfiles under git, with its settings and the
//! modules it is composed of, each a profile of its own.

use vstd::prelude::*;
use crate::config::{location_spec, missing_repository, module_location, LinkMode, ProfileConfig};
use crate::error::{Error, ErrorKind};
use crate::hooks::{hook_step, Command, Hook, HookAction, HookEvent, Hooks, Invocation};
use crate::mapping::Mapping;
use crate::paths::{file_name, file_name_spec, join, join_spec};
use crate::repo::{
    branch_spec, dirty_spec, git_command, git_in, origin_spec, text_view, Repo, RepoState,
};
use crate::sync::{
    choose_message, needs_prompt, plan_steps, steps_of, sync_steps, unprompted_message,
    MessageSource, Step, SyncStep,
};
use crate::text::{char_len, owned, strings_of};

verus! {

/// A profile with its modules.
#[derive(Debug)]
pub struct Profile {
    /// The directory that holds the profile's files.
    pub location: String,
    /// The git URL that the profile is cloned from.
    pub repo: String,
    /// Extra arguments for `git clone`.
    pub clone_flags: Vec<String>,
    pub hooks: Hooks,
    pub mappings: Option<Vec<Mapping>>,
    pub prompt_for_commit_message: bool,
    pub pull_only: bool,
    /// When this profile is linked, where it is a module of another.
    pub link: LinkMode,
    pub modules: Vec<Profile>,
}

/// The number of levels of modules below and including `config`.
pub open spec fn height(config: ProfileConfig) -> nat
    decreases config,
{
    1 + max_height(config.modules@)
}

/// The greatest height among `configs`.
pub open spec fn max_height(configs: Seq<ProfileConfig>) -> nat
    decreases configs,
{
    if configs.len() == 0 {
        0
    } else {
        let first = height(configs[0]);
        let rest = max_height(configs.skip(1));
        if first > rest {
            first
        } else {
            rest
        }
    }
}

proof fn lemma_height_of_member(configs: Seq<ProfileConfig>, i: int)
    requires
        0 <= i < configs.len(),
    ensures
        height(configs[i]) <= max_height(configs),
    decreases i,
{
    if i > 0 {
        lemma_height_of_member(configs.skip(1), i - 1);
    }
}

/// Every module below `config`, at any depth, says where it lives or where
/// it is cloned from.
pub open spec fn complete(config: ProfileConfig) -> bool
    decreases config,
{
    forall|i: int|
        0 <= i < config.modules@.len() ==> {
            let module = #[trigger] config.modules@[i];
            (module.location@.len() > 0 || module.repo@.len() > 0) && complete(module)
        }
}

/// `profile` is what `config` describes when the profile itself is located
/// at `location`: its settings are those of `config`, its directory is the
/// location with the root directory below it, and its modules are, in
/// order, what the configurations of the modules describe, each at the
/// place that its own configuration settles.
pub open spec fn built_from(
    profile: Profile,
    config: ProfileConfig,
    location: Seq<char>,
    modules_dir: Seq<char>,
    home: Seq<char>,
) -> bool
    decreases profile,
{
    &&& profile.location@ == location_spec(location, config.root_dir_spec(), home)
    &&& profile.repo == config.repo
    &&& profile.clone_flags == config.clone_flags
    &&& profile.hooks == config.hooks
    &&& profile.mappings == config.mappings
    &&& profile.prompt_for_commit_message == config.prompt_for_commit_message
    &&& profile.pull_only == config.pull_only
    &&& profile.link == config.link
    &&& profile.modules@.len() == config.modules@.len()
    &&& forall|i: int|
        0 <= i < profile.modules@.len() ==> built_from(
            #[trigger] profile.modules@[i],
            config.modules@[i],
            module_location(
                config.modules@[i].location@,
                config.modules@[i].repo@,
                modules_dir,
                home,
            ),
            modules_dir,
            home,
        )
}

/// `profile` is the profile of a directory without configuration: it lives
/// in `directory` and has nothing set, so it has no repository, no clone
/// flags, no hooks, no mappings and no modules, it commits and pushes
/// without asking, and it links after its parent.
pub open spec fn is_bare(profile: Profile, directory: Seq<char>) -> bool {
    &&& profile.location@ == directory
    &&& profile.repo@.len() == 0
    &&& profile.clone_flags@.len() == 0
    &&& profile.hooks@ == Map::<Seq<char>, Seq<Hook>>::empty()
    &&& profile.mappings is None
    &&& !profile.prompt_for_commit_message
    &&& !profile.pull_only
    &&& profile.link == LinkMode::Post
    &&& profile.modules@.len() == 0
}

/// One task of a link pass.
#[derive(Debug, Clone, PartialEq, Eq)]
pub enum LinkTask {
    /// Link the module at this index, with its own modules.
    Module(usize),
    /// Run the hooks of this name.
    Hook(String),
    /// Link the profile's own files.
    Files,
}

/// One task of a link pass, as plain values.
pub enum Task {
    Module(int),
    Hook(Seq<char>),
    Files,
}

impl View for LinkTask {
    type V = Task;

    open spec fn view(&self) -> Task {
        match self {
            LinkTask::Module(index) => Task::Module(*index as int),
            LinkTask::Hook(name) => Task::Hook(name@),
            LinkTask::Files => Task::Files,
        }
    }
}

/// The views of `tasks`, in order.
pub open spec fn tasks_of(tasks: Seq<LinkTask>) -> Seq<Task> {
    Seq::new(tasks.len(), |i: int| tasks[i]@)
}

/// A task for each module whose mode is `mode`, in the order of the modules.
pub open spec fn module_tasks(modes: Seq<LinkMode>, mode: LinkMode) -> Seq<Task>
    decreases modes.len(),
{
    if modes.len() == 0 {
        Seq::empty()
    } else if modes.last() == mode {
        module_tasks(modes.drop_last(), mode).push(Task::Module(modes.len() - 1))
    } else {
        module_tasks(modes.drop_last(), mode)
    }
}

/// The tasks of a link pass, in order: the modules that link before the
/// profile, the profile's own files between its `before_link` and
/// `after_link` hooks, and the modules that link after it. A module that
/// never links has no task.
pub open spec fn link_tasks(modes: Seq<LinkMode>) -> Seq<Task> {
    module_tasks(modes, LinkMode::Pre) + seq![
        Task::Hook("before_link"@),
        Task::Files,
        Task::Hook("after_link"@),
    ] + module_tasks(modes, LinkMode::Post)
}

/// The link modes of `modules`, in order.
pub open spec fn link_modes(modules: Seq<Profile>) -> Seq<LinkMode> {
    Seq::new(modules.len(), |i: int| modules[i].link)
}

/// The arguments of the `git clone` that fetches a module: the extra
/// arguments, then the repository and the place to clone to.
pub open spec fn clone_args(flags: Seq<Seq<char>>, repo: Seq<char>, location: Seq<char>) -> Seq<
    Seq<char>,
> {
    seq!["clone"@] + flags + seq![repo, location]
}

/// The steps that make a module usable: none where its directory is
/// present, and the clone followed by the `after_sync` hooks where it is
/// missing.
pub open spec fn bootstrap_steps(present: bool, clone: Seq<Seq<char>>) -> Seq<Step> {
    if present {
        Seq::empty()
    } else {
        seq![Step::Git(git_command(clone)), Step::Hook("after_sync"@)]
    }
}

/// One step of setting up a new profile.
#[derive(Debug, Clone, PartialEq, Eq)]
pub enum InitStep {
    /// Run this git command in the profile's directory.
    Git(Invocation),
    /// Write the profile's configuration to this file.
    WriteConfig(String),
}

/// One step of setting up a new profile, as plain values.
pub enum Setup {
    Git(Command),
    WriteConfig(Seq<char>),
}

impl View for InitStep {
    type V = Setup;

    open spec fn view(&self) -> Setup {
        match self {
            InitStep::Git(invocation) => Setup::Git(invocation@),
            InitStep::WriteConfig(path) => Setup::WriteConfig(path@),
        }
    }
}

/// The steps that set up a new profile at `location`: the repository is
/// created, the configuration is written to `.dfm.yml`, and that file is
/// added and committed.
pub open spec fn init_steps(location: Seq<char>) -> Seq<Setup> {
    seq![
        Setup::Git(git_in(location, seq!["init"@])),
        Setup::WriteConfig(join_spec(location, ".dfm.yml"@)),
        Setup::Git(git_in(location, seq!["add"@, ".dfm.yml"@])),
        Setup::Git(git_in(location, seq!["commit"@, "-m"@, "initial commit"@])),
    ]
}

/// What a synchronisation starts with.
#[derive(Debug, Clone)]
pub enum SyncPlan {
    /// Show the changes with this command and ask the user for a message.
    Ask { show: Invocation },
    /// Run these steps in order.
    Run(Vec<SyncStep>),
}

/// `--no-pager diff`, which prints the changes that are not committed.
pub open spec fn diff_args() -> Seq<Seq<char>> {
    seq!["--no-pager"@, "diff"@]
}

/// `profile` is the module that `config` describes: the configuration says
/// where the module lives or where it is cloned from, as do all the modules
/// below it, and the profile is built from it at the place it settles.
pub open spec fn module_built(
    profile: Profile,
    config: ProfileConfig,
    modules_dir: Seq<char>,
    home: Seq<char>,
) -> bool {
    &&& config.location@.len() > 0 || config.repo@.len() > 0
    &&& complete(config)
    &&& built_from(
        profile,
        config,
        module_location(config.location@, config.repo@, modules_dir, home),
        modules_dir,
        home,
    )
}

impl Profile {
    /// The profile that `config` describes, with the modules it names. No
    /// module is fetched here. Fails when a module, at any depth, names
    /// neither a place nor a repository.
    #[verifier::loop_isolation(false)]
    pub fn from_config(config: ProfileConfig, modules_dir: &str, home: &str) -> (r: Result<
        Profile,
        Error,
    >)
        ensures
            match r {
                Ok(profile) => complete(config) && built_from(
                    profile,
                    config,
                    config.location@,
                    modules_dir@,
                    home@,
                ),
                Err(e) => !complete(config) && e.is(
                    ErrorKind::Config,
                    Seq::empty(),
                    missing_repository(),
                ),
            },
        decreases height(config),
    {
        let location = config.get_location(home);
        let ghost written = config;
        let ProfileConfig {
            repo,
            location: _,
            hooks,
            root_dir: _,
            clone_flags,
            prompt_for_commit_message,
            pull_only,
            link,
            modules,
            mappings,
        } = config;
        let ghost all = modules@;
        let mut rest = modules;
        let mut built: Vec<Profile> = Vec::new();
        while rest.len() > 0
            invariant
                all == written.modules@,
                built@.len() <= all.len(),
                rest@ == all.skip(built@.len() as int),
                forall|j: int|
                    0 <= j < built@.len() ==> module_built(
                        #[trigger] built@[j],
                        all[j],
                        modules_dir@,
                        home@,
                    ),
            decreases rest@.len(),
        {
            let ghost at = built@.len() as int;
            let mut module = rest.remove(0);
            assert(module == all[at]);
            assert(rest@ =~= all.skip(at + 1));
            match module.expand_module(modules_dir, home) {
                Ok(()) => {},
                Err(e) => {
                    assert(!complete(written)) by {
                        assert(written.modules@[at] == all[at]);
                    }
                    return Err(e);
                },
            }
            proof {
                lemma_height_of_member(all, at);
                assert(module.modules == all[at].modules);
                assert(height(module) == height(all[at]));
                assert(height(written) == 1 + max_height(all));
            }
            let profile = match Profile::from_config(module, modules_dir, home) {
                Ok(profile) => profile,
                Err(e) => {
                    assert(!complete(all[at])) by {
                        assert(module.modules == all[at].modules);
                    }
                    assert(!complete(written)) by {
                        assert(written.modules@[at] == all[at]);
                    }
                    return Err(e);
                },
            };
            assert(complete(all[at])) by {
                assert(module.modules == all[at].modules);
            }
            assert(built_from(
                profile,
                all[at],
                module_location(all[at].location@, all[at].repo@, modules_dir@, home@),
                modules_dir@,
                home@,
            ));
            let ghost before = built@;
            built.push(profile);
            assert forall|j: int| 0 <= j < built@.len() implies module_built(
                #[trigger] built@[j],
                all[j],
                modules_dir@,
                home@,
            ) by {
                if j < at {
                    assert(built@[j] == before[j]);
                }
            }
        }
        assert(built@.len() == all.len());
        assert(complete(written)) by {
            assert forall|i: int| 0 <= i < written.modules@.len() implies {
                let module = #[trigger] written.modules@[i];
                (module.location@.len() > 0 || module.repo@.len() > 0) && complete(module)
            } by {
                assert(built_from(
                    built@[i],
                    all[i],
                    module_location(all[i].location@, all[i].repo@, modules_dir@, home@),
                    modules_dir@,
                    home@,
                ));
            }
        }
        let profile = Profile {
            location,
            repo,
            clone_flags,
            hooks,
            mappings,
            prompt_for_commit_message,
            pull_only,
            link,
            modules: built,
        };
        Ok(profile)
    }

    /// The profile in `directory`: what the configuration found there
    /// describes, located in `directory` unless it names another place, and
    /// a profile with nothing set where no configuration was found.
    pub fn load(directory: &str, found: Option<ProfileConfig>, modules_dir: &str, home: &str) -> (r:
        Result<Profile, Error>)
        ensures
            match (r, found) {
                (Ok(profile), Some(config)) => complete(config) && built_from(
                    profile,
                    config,
                    if config.location@.len() == 0 {
                        directory@
                    } else {
                        config.location@
                    },
                    modules_dir@,
                    home@,
                ),
                (Ok(profile), None) => is_bare(profile, directory@),
                (Err(e), Some(config)) => !complete(config) && e.is(
                    ErrorKind::Config,
                    Seq::empty(),
                    missing_repository(),
                ),
                (Err(e), None) => false,
            },
    {
        match found {
            Some(config) => {
                let mut config = config;
                let ghost written = config;
                if char_len(config.location.as_str()) == 0 {
                    config.location = directory.to_owned();
                }
                assert(complete(config) == complete(written));
                match Profile::from_config(config, modules_dir, home) {
                    Ok(profile) => {
                        assert(built_from(
                            profile,
                            written,
                            config.location@,
                            modules_dir@,
                            home@,
                        ));
                        Ok(profile)
                    },
                    Err(e) => Err(e),
                }
            },
            None => {
                let config = ProfileConfig::default();
                Ok(
                    Profile {
                        location: directory.to_owned(),
                        repo: config.repo,
                        clone_flags: config.clone_flags,
                        hooks: config.hooks,
                        mappings: config.mappings,
                        prompt_for_commit_message: config.prompt_for_commit_message,
                        pull_only: config.pull_only,
                        link: config.link,
                        modules: Vec::new(),
                    },
                )
            },
        }
    }

    /// The name of the profile: the final component of its location.
    pub fn name(&self) -> (r: String)
        ensures
            r@ == file_name_spec(self.location@),
    {
        file_name(self.location.as_str())
    }

    /// The directory that holds the profile's files.
    pub fn get_location(&self) -> (r: String)
        ensures
            r@ == self.location@,
    {
        self.location.clone()
    }

    /// The command that fetches this profile where its directory is missing.
    pub fn download(&self) -> (r: Invocation)
        ensures
            r@ == git_command(clone_args(strings_of(self.clone_flags@), self.repo@, self.location@)),
    {
        let mut args: Vec<String> = Vec::new();
        args.push("clone".to_owned());
        let mut i: usize = 0;
        while i < self.clone_flags.len()
            invariant
                i <= self.clone_flags.len(),
                strings_of(args@) == seq!["clone"@] + strings_of(self.clone_flags@).take(i as int),
            decreases self.clone_flags.len() - i,
        {
            let ghost before = args@;
            args.push(self.clone_flags[i].clone());
            assert(strings_of(args@) =~= strings_of(before).push(self.clone_flags@[i as int]@));
            assert(strings_of(self.clone_flags@).take(i + 1) =~= strings_of(self.clone_flags@).take(
                i as int,
            ).push(self.clone_flags@[i as int]@));
            i = i + 1;
        }
        assert(strings_of(self.clone_flags@).take(self.clone_flags@.len() as int) =~= strings_of(
            self.clone_flags@,
        ));
        let ghost before = args@;
        args.push(self.repo.clone());
        args.push(self.location.clone());
        assert(strings_of(args@) =~= strings_of(before) + seq![self.repo@, self.location@]);
        Invocation { program: "git".to_owned(), args, cwd: None, capture: false }
    }

    /// What has to happen before a module can be used: nothing where its
    /// directory is present; where it is missing, the module is cloned and
    /// its `after_sync` hooks run once.
    pub fn bootstrap(&self, present: bool) -> (steps: Vec<SyncStep>)
        ensures
            steps_of(steps@) == bootstrap_steps(
                present,
                clone_args(strings_of(self.clone_flags@), self.repo@, self.location@),
            ),
    {
        let mut steps: Vec<SyncStep> = Vec::new();
        if !present {
            steps.push(SyncStep::Git(self.download()));
            steps.push(SyncStep::Hook("after_sync".to_owned()));
        }
        assert(steps_of(steps@) =~= bootstrap_steps(
            present,
            clone_args(strings_of(self.clone_flags@), self.repo@, self.location@),
        ));
        steps
    }

    /// The next step of the run of the hooks of `hook_name`; their processes
    /// run in the profile's directory, and an error names the profile.
    pub fn run_hook(&self, hook_name: &str, event: HookEvent) -> (action: HookAction)
        ensures
            action.is_outcome_at(
                hook_step(self.hooks.hooks_for(hook_name@), hook_name@, self.location@, event),
                self.location@,
            ),
    {
        match self.hooks.run_hook(hook_name, self.location.as_str(), event) {
            HookAction::Fail(e) => HookAction::Fail(e.at(self.location.as_str())),
            HookAction::Run { index, invocation } => HookAction::Run { index, invocation },
            HookAction::Done => HookAction::Done,
        }
    }

    /// Whether the profile's checkout is dirty, from what its status probe
    /// printed; `None` stands for a probe that could not run.
    pub fn is_dirty(&self, status: Option<&str>) -> (r: bool)
        ensures
            r == dirty_spec(text_view(status)),
    {
        Repo::new(self.location.as_str()).is_dirty(status)
    }

    /// Whether the profile's checkout has a remote `origin`, from what its
    /// remote probe printed; `None` stands for a probe that could not run.
    pub fn has_origin(&self, remotes: Option<&str>) -> (r: bool)
        ensures
            r == origin_spec(text_view(remotes)),
    {
        Repo::new(self.location.as_str()).has_remote(remotes)
    }

    /// The branch that the profile's checkout is on, from what its branch
    /// probe printed; `main` where the probe could not run.
    pub fn branch_name(&self, printed: Option<&str>) -> (r: String)
        ensures
            r@ == branch_spec(text_view(printed)),
    {
        Repo::new(self.location.as_str()).branch_name(printed)
    }

    /// Says whether the user is asked for the message of a commit.
    pub fn set_prompt(&mut self, prompt: bool)
        ensures
            *final(self) == (Profile { prompt_for_commit_message: prompt, ..*old(self) }),
    {
        self.prompt_for_commit_message = prompt;
    }

    /// The process that runs git with `args` in the profile's directory.
    pub fn git(&self, args: Vec<String>) -> (r: Invocation)
        ensures
            r@ == git_in(self.location@, strings_of(args@)),
    {
        Repo::new(self.location.as_str()).git(args)
    }

    /// `git status` in the profile's directory.
    pub fn status(&self) -> (r: Invocation)
        ensures
            r@ == git_in(self.location@, seq!["status"@]),
    {
        let args = owned(vec!["status"]);
        assert(strings_of(args@) =~= seq!["status"@]);
        self.git(args)
    }

    /// How the synchronisation of this profile starts, given what the probes
    /// found and the message that the caller gave, empty for none: with a
    /// question to the user where a commit is due and its message is to come
    /// from the user, and with the steps to run otherwise.
    pub fn sync_with_message(&self, commit_msg: &str, state: &RepoState) -> (plan: SyncPlan)
        ensures
            match plan {
                SyncPlan::Ask { show } => needs_prompt(
                    state.dirty,
                    self.pull_only,
                    commit_msg@,
                    self.prompt_for_commit_message,
                ) && show@ == git_in(self.location@, diff_args()),
                SyncPlan::Run(steps) => !needs_prompt(
                    state.dirty,
                    self.pull_only,
                    commit_msg@,
                    self.prompt_for_commit_message,
                ) && steps_of(steps@) == sync_steps(
                    self.location@,
                    state.dirty,
                    state.has_origin,
                    state.branch@,
                    self.pull_only,
                    Some(unprompted_message(commit_msg@)),
                    self.modules@.len(),
                ),
            },
    {
        let repo = Repo::new(self.location.as_str());
        let source = choose_message(commit_msg, self.prompt_for_commit_message);
        match source {
            MessageSource::Prompt => {
                if state.dirty && !self.pull_only {
                    let args = owned(vec!["--no-pager", "diff"]);
                    assert(strings_of(args@) =~= diff_args());
                    SyncPlan::Ask { show: repo.git(args) }
                } else {
                    SyncPlan::Run(
                        plan_steps(
                            &repo,
                            state,
                            self.pull_only,
                            Some("Dotfiles managed by DFM! https://github.com/chasinglogic/dfm"),
                            self.modules.len(),
                        ),
                    )
                }
            },
            MessageSource::Given => SyncPlan::Run(
                plan_steps(&repo, state, self.pull_only, Some(commit_msg), self.modules.len()),
            ),
            MessageSource::Fixed => SyncPlan::Run(
                plan_steps(
                    &repo,
                    state,
                    self.pull_only,
                    Some("Dotfiles managed by DFM! https://github.com/chasinglogic/dfm"),
                    self.modules.len(),
                ),
            ),
        }
    }

    /// The steps to run once the user was asked for a message; `None`
    /// stands for a user who gave none.
    pub fn sync_after_prompt(&self, state: &RepoState, answer: Option<&str>) -> (steps: Vec<
        SyncStep,
    >)
        ensures
            steps_of(steps@) == sync_steps(
                self.location@,
                state.dirty,
                state.has_origin,
                state.branch@,
                self.pull_only,
                text_view(answer),
                self.modules@.len(),
            ),
    {
        let repo = Repo::new(self.location.as_str());
        plan_steps(&repo, state, self.pull_only, answer, self.modules.len())
    }

    /// How the synchronisation of this profile starts when the caller gives
    /// no message.
    pub fn sync(&self, state: &RepoState) -> (plan: SyncPlan)
        ensures
            match plan {
                SyncPlan::Ask { show } => needs_prompt(
                    state.dirty,
                    self.pull_only,
                    Seq::empty(),
                    self.prompt_for_commit_message,
                ) && show@ == git_in(self.location@, diff_args()),
                SyncPlan::Run(steps) => !needs_prompt(
                    state.dirty,
                    self.pull_only,
                    Seq::empty(),
                    self.prompt_for_commit_message,
                ) && steps_of(steps@) == sync_steps(
                    self.location@,
                    state.dirty,
                    state.has_origin,
                    state.branch@,
                    self.pull_only,
                    Some(crate::sync::default_message()),
                    self.modules@.len(),
                ),
            },
    {
        proof {
            reveal_strlit("");
        }
        self.sync_with_message("", state)
    }

    /// The tasks of a link pass over this profile, in order.
    pub fn link(&self) -> (tasks: Vec<LinkTask>)
        ensures
            tasks_of(tasks@) == link_tasks(link_modes(self.modules@)),
    {
        let ghost modes = link_modes(self.modules@);
        let mut tasks: Vec<LinkTask> = Vec::new();
        let mut i: usize = 0;
        while i < self.modules.len()
            invariant
                i <= self.modules.len(),
                modes == link_modes(self.modules@),
                tasks_of(tasks@) == module_tasks(modes.take(i as int), LinkMode::Pre),
            decreases self.modules.len() - i,
        {
            let ghost before = tasks@;
            assert(modes.take(i + 1).drop_last() =~= modes.take(i as int));
            assert(modes.take(i + 1).last() == self.modules@[i as int].link);
            if self.modules[i].link == LinkMode::Pre {
                tasks.push(LinkTask::Module(i));
                assert(tasks_of(tasks@) =~= tasks_of(before).push(Task::Module(i as int)));
            }
            i = i + 1;
        }
        assert(modes.take(self.modules@.len() as int) =~= modes);
        let ghost first = tasks@;
        tasks.push(LinkTask::Hook("before_link".to_owned()));
        tasks.push(LinkTask::Files);
        tasks.push(LinkTask::Hook("after_link".to_owned()));
        let ghost own = tasks@;
        assert(tasks_of(own) =~= module_tasks(modes, LinkMode::Pre) + seq![
            Task::Hook("before_link"@),
            Task::Files,
            Task::Hook("after_link"@),
        ]);
        let mut k: usize = 0;
        while k < self.modules.len()
            invariant
                k <= self.modules.len(),
                modes == link_modes(self.modules@),
                tasks_of(tasks@) == tasks_of(own) + module_tasks(modes.take(k as int), LinkMode::Post),
            decreases self.modules.len() - k,
        {
            let ghost before = tasks@;
            assert(modes.take(k + 1).drop_last() =~= modes.take(k as int));
            assert(modes.take(k + 1).last() == self.modules@[k as int].link);
            if self.modules[k].link == LinkMode::Post {
                tasks.push(LinkTask::Module(k));
                assert(tasks_of(tasks@) =~= tasks_of(before).push(Task::Module(k as int)));
            }
            k = k + 1;
        }
        assert(modes.take(self.modules@.len() as int) =~= modes);
        tasks
    }

    /// The steps that set up a new profile in this profile's directory.
    pub fn init(&self) -> (steps: Vec<InitStep>)
        ensures
            steps@.len() == 4,
            forall|i: int| 0 <= i < 4 ==> (#[trigger] steps@[i])@ == init_steps(self.location@)[i],
    {
        let mut steps: Vec<InitStep> = Vec::new();
        let init = owned(vec!["init"]);
        assert(strings_of(init@) =~= seq!["init"@]);
        steps.push(InitStep::Git(self.git(init)));
        steps.push(InitStep::WriteConfig(join(self.location.as_str(), ".dfm.yml")));
        let add = owned(vec!["add", ".dfm.yml"]);
        assert(strings_of(add@) =~= seq!["add"@, ".dfm.yml"@]);
        steps.push(InitStep::Git(self.git(add)));
        let commit = owned(vec!["commit", "-m", "initial commit"]);
        assert(strings_of(commit@) =~= seq!["commit"@, "-m"@, "initial commit"@]);
        steps.push(InitStep::Git(self.git(commit)));
        steps
    }
}

/// The module that a task of `module_tasks` stands for.
pub open spec fn task_module(task: Task) -> int {
    match task {
        Task::Module(index) => index,
        _ => -1,
    }
}

/// A module that never links has no task in a link pass: every module task
/// of a pass stands for a module of the profile whose mode is the one asked
/// for.
pub proof fn law_only_linking_modules_have_tasks(modes: Seq<LinkMode>, mode: LinkMode, i: int)
    requires
        0 <= i < module_tasks(modes, mode).len(),
    ensures
        0 <= task_module(module_tasks(modes, mode)[i]) < modes.len(),
        modes[task_module(module_tasks(modes, mode)[i])] == mode,
    decreases modes.len(),
{
    if modes.len() > 0 {
        let before = module_tasks(modes.drop_last(), mode);
        if i < before.len() {
            law_only_linking_modules_have_tasks(modes.drop_last(), mode, i);
        }
    }
}

} // verus!
