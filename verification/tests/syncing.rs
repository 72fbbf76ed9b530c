use dfm::error::ErrorKind;
use dfm::hooks::Invocation;
use dfm::profile::{Profile, SyncPlan};
use dfm::repo::{branch_or_default, Repo, RepoState};
use dfm::sync::{advance, choose_message, plan_steps, MessageSource, StepResult, SyncStep};

const DEFAULT_MESSAGE: &str = "Dotfiles managed by DFM! https://github.com/chasinglogic/dfm";

fn git(args: &[&str]) -> Invocation {
    Invocation {
        program: "git".to_string(),
        args: args.iter().map(|a| a.to_string()).collect(),
        cwd: Some("/p".to_string()),
        capture: false,
    }
}

fn probe(args: &[&str]) -> Invocation {
    Invocation { capture: true, ..git(args) }
}

fn hook(name: &str) -> SyncStep {
    SyncStep::Hook(name.to_string())
}

fn state(dirty: bool, has_origin: bool) -> RepoState {
    RepoState { dirty, has_origin, branch: "main".to_string() }
}

#[test]
fn probes_are_git_commands() {
    let repo = Repo::new("/p");
    assert_eq!(repo.path, "/p");
    assert_eq!(repo.status_probe(), probe(&["status", "--porcelain"]));
    assert_eq!(repo.remote_probe(), probe(&["remote", "-v"]));
    assert_eq!(repo.branch_probe(), probe(&["rev-parse", "--abbrev-ref", "HEAD"]));
    assert_eq!(repo.git(vec!["log".to_string()]), git(&["log"]));
}

#[test]
fn dirty_means_status_printed_something() {
    let repo = Repo::new("/p");
    assert!(repo.is_dirty(Some(" M .bashrc\n")));
    assert!(!repo.is_dirty(Some("")));
    assert!(!repo.is_dirty(None));
}

#[test]
fn origin_is_looked_for_in_the_remotes() {
    let repo = Repo::new("/p");
    assert!(repo.has_remote(Some("origin\tgit@example.com:me/dots (fetch)\n")));
    assert!(!repo.has_remote(Some("upstream\tgit@example.com:me/dots (fetch)\n")));
    assert!(!repo.has_remote(Some("")));
    assert!(!repo.has_remote(None));
}

#[test]
fn branch_is_trimmed_and_defaults_to_main() {
    let repo = Repo::new("/p");
    assert_eq!(repo.branch_name(Some("  develop\n")), "develop");
    assert_eq!(repo.branch_name(Some("master")), "master");
    assert_eq!(repo.branch_name(Some("\n")), "");
    assert_eq!(repo.branch_name(None), "main");
    assert_eq!(branch_or_default(Some("x".to_string())), "x");
    assert_eq!(branch_or_default(None), "main");
}

#[test]
fn state_gathers_the_probes() {
    let repo = Repo::new("/p");
    assert_eq!(
        repo.state(Some("?? new\n"), Some("origin x\n"), Some("trunk\n")),
        RepoState { dirty: true, has_origin: true, branch: "trunk".to_string() }
    );
    assert_eq!(
        repo.state(None, None, None),
        RepoState { dirty: false, has_origin: false, branch: "main".to_string() }
    );
}

#[test]
fn repo_sync_dirty_with_origin() {
    let repo = Repo::new("/p");
    assert_eq!(
        repo.sync("msg", false, &state(true, true)),
        vec![
            git(&["add", "--all"]),
            git(&["commit", "-m", "msg"]),
            git(&["pull", "--rebase", "origin", "main"]),
            git(&["push", "origin", "main"]),
        ]
    );
}

#[test]
fn repo_sync_dirty_without_origin_neither_pulls_nor_pushes() {
    let repo = Repo::new("/p");
    assert_eq!(
        repo.sync("msg", false, &state(true, false)),
        vec![git(&["add", "--all"]), git(&["commit", "-m", "msg"])]
    );
}

#[test]
fn repo_sync_clean_with_origin_only_pulls() {
    let repo = Repo::new("/p");
    assert_eq!(
        repo.sync("msg", false, &state(false, true)),
        vec![git(&["pull", "--rebase", "origin", "main"])]
    );
    assert_eq!(repo.sync("msg", false, &state(false, false)), vec![]);
}

#[test]
fn repo_sync_pull_only_never_commits_or_pushes() {
    let repo = Repo::new("/p");
    for dirty in [false, true] {
        assert_eq!(
            repo.sync("msg", true, &state(dirty, true)),
            vec![git(&["pull", "--rebase", "origin", "main"])]
        );
        assert_eq!(repo.sync("msg", true, &state(dirty, false)), vec![]);
    }
}

#[test]
fn steps_dirty_with_origin() {
    let repo = Repo::new("/p");
    assert_eq!(
        plan_steps(&repo, &state(true, true), false, Some("msg"), 2),
        vec![
            hook("before_sync"),
            SyncStep::Git(git(&["add", "--all"])),
            SyncStep::Git(git(&["commit", "-m", "msg"])),
            SyncStep::Git(git(&["pull", "--rebase", "origin", "main"])),
            SyncStep::Git(git(&["push", "origin", "main"])),
            hook("after_sync_dirty"),
            hook("after_sync"),
            SyncStep::Module(0),
            SyncStep::Module(1),
        ]
    );
}

#[test]
fn steps_dirty_without_origin() {
    let repo = Repo::new("/p");
    assert_eq!(
        plan_steps(&repo, &state(true, false), false, Some("msg"), 0),
        vec![
            hook("before_sync"),
            SyncStep::Git(git(&["add", "--all"])),
            SyncStep::Git(git(&["commit", "-m", "msg"])),
            hook("after_sync_clean"),
            hook("after_sync"),
        ]
    );
}

#[test]
fn steps_clean_with_origin() {
    let repo = Repo::new("/p");
    assert_eq!(
        plan_steps(&repo, &state(false, true), false, Some("msg"), 1),
        vec![
            SyncStep::Git(git(&["pull", "--rebase", "origin", "main"])),
            hook("after_sync_clean"),
            hook("after_sync"),
            SyncStep::Module(0),
        ]
    );
}

#[test]
fn steps_pull_only() {
    let repo = Repo::new("/p");
    for dirty in [false, true] {
        assert_eq!(
            plan_steps(&repo, &state(dirty, true), true, Some("msg"), 0),
            vec![
                SyncStep::Git(git(&["pull", "--rebase", "origin", "main"])),
                hook("after_sync_clean"),
                hook("after_sync"),
            ]
        );
        assert_eq!(
            plan_steps(&repo, &state(dirty, false), true, Some("msg"), 0),
            vec![hook("after_sync_clean"), hook("after_sync")]
        );
    }
}

#[test]
fn steps_after_a_cancelled_prompt() {
    let repo = Repo::new("/p");
    assert_eq!(
        plan_steps(&repo, &state(true, true), false, None, 1),
        vec![
            SyncStep::Git(git(&["pull", "--rebase", "origin", "main"])),
            SyncStep::Git(git(&["push", "origin", "main"])),
            hook("after_sync_dirty"),
            hook("after_sync"),
            SyncStep::Module(0),
        ]
    );
    assert_eq!(
        plan_steps(&repo, &state(true, false), false, None, 0),
        vec![hook("after_sync_clean"), hook("after_sync")]
    );
}

#[test]
fn message_source() {
    assert_eq!(choose_message("fix", true), MessageSource::Given);
    assert_eq!(choose_message("fix", false), MessageSource::Given);
    assert_eq!(choose_message("", true), MessageSource::Prompt);
    assert_eq!(choose_message("", false), MessageSource::Fixed);
}

#[test]
fn a_failed_step_ends_the_run() {
    assert_eq!(advance(5, 1, StepResult::Failure), Err(ErrorKind::GitCommand));
    assert_eq!(advance(5, 1, StepResult::SpawnFailed), Err(ErrorKind::ProcessSpawn));
    assert_eq!(advance(5, 1, StepResult::Success), Ok(Some(2)));
    assert_eq!(advance(5, 4, StepResult::Success), Ok(None));
    assert_eq!(advance(0, 0, StepResult::Success), Ok(None));
    assert_eq!(advance(usize::MAX, usize::MAX, StepResult::Success), Ok(None));
}

#[test]
fn default_message_is_used_when_none_is_given() {
    let profile = Profile::load("/p", None, "/m", "/home/foo").unwrap();
    match profile.sync(&state(true, false)) {
        SyncPlan::Run(steps) => {
            assert_eq!(steps[2], SyncStep::Git(git(&["commit", "-m", DEFAULT_MESSAGE])))
        }
        other => panic!("expected steps, got {other:?}"),
    }
}
