use dfm::error::ErrorKind;
use dfm::hooks::{Hook, HookAction, HookDefinition, HookEvent, Hooks, Invocation};

const WD: &str = "/home/foo/profile";

fn invocation(program: &str, args: &[&str]) -> Invocation {
    Invocation {
        program: program.to_string(),
        args: args.iter().map(|a| a.to_string()).collect(),
        cwd: Some(WD.to_string()),
        capture: false,
    }
}

fn script(interpreter: &str, script: &str) -> Hook {
    Hook::Script(HookDefinition { interpreter: interpreter.to_string(), script: script.to_string() })
}

fn run_of(action: HookAction) -> (usize, Invocation) {
    match action {
        HookAction::Run { index, invocation } => (index, invocation),
        other => panic!("expected a process to start, got {other:?}"),
    }
}

fn sample() -> Hooks {
    let mut hooks = Hooks::new();
    hooks.insert(
        "after_link".to_string(),
        vec![
            Hook::Shell("echo linked".to_string()),
            script("python3 -u", "print('hi')"),
            Hook::Shell("true".to_string()),
        ],
    );
    hooks
}

#[test]
fn shell_hook_runs_under_sh() {
    let hook = Hook::Shell("echo 'a b' && ls".to_string());
    assert_eq!(hook.invocation(WD).unwrap(), invocation("sh", &["-c", "echo 'a b' && ls"]));
}

#[test]
fn script_hook_lexes_its_interpreter() {
    assert_eq!(
        script("python3 -u", "print('hi')").invocation(WD).unwrap(),
        invocation("python3", &["-u", "print('hi')"])
    );
    assert_eq!(
        script("bash -c 'set -e' --", "ls").invocation(WD).unwrap(),
        invocation("bash", &["-c", "set -e", "--", "ls"])
    );
    assert_eq!(script("python3", "x = 1").invocation(WD).unwrap(), invocation("python3", &["x = 1"]));
}

#[test]
fn empty_interpreter_runs_the_script_itself() {
    assert_eq!(script("", "/usr/bin/true").invocation(WD).unwrap(), invocation("/usr/bin/true", &[]));
}

#[test]
fn malformed_interpreter_is_a_config_error() {
    let err = script("bash 'unclosed", "ls").invocation(WD).unwrap_err();
    assert_eq!(err.kind, ErrorKind::Config);
    assert_eq!(err.message, "malformed interpreter: bash 'unclosed");
    assert_eq!(err.profile_path, "");
}

#[test]
fn interpreted_takes_the_words_as_given() {
    let words = Some(vec!["env".to_string(), "ruby".to_string()]);
    assert_eq!(
        Invocation::interpreted(words, "env ruby", "puts 1", WD).unwrap(),
        invocation("env", &["ruby", "puts 1"])
    );
    let err = Invocation::interpreted(None, "x'", "s", WD).unwrap_err();
    assert_eq!(err.message, "malformed interpreter: x'");
}

#[test]
fn absent_hook_is_a_noop() {
    let hooks = sample();
    assert!(matches!(hooks.run_hook("before_link", WD, HookEvent::Begin), HookAction::Done));
    assert!(matches!(Hooks::new().run_hook("after_sync", WD, HookEvent::Begin), HookAction::Done));
}

#[test]
fn hooks_run_in_order() {
    let hooks = sample();
    let (index, first) = run_of(hooks.run_hook("after_link", WD, HookEvent::Begin));
    assert_eq!((index, first), (0, invocation("sh", &["-c", "echo linked"])));
    let (index, second) =
        run_of(hooks.run_hook("after_link", WD, HookEvent::Exited { index: 0, success: true }));
    assert_eq!((index, second), (1, invocation("python3", &["-u", "print('hi')"])));
    let (index, third) =
        run_of(hooks.run_hook("after_link", WD, HookEvent::Exited { index: 1, success: true }));
    assert_eq!((index, third), (2, invocation("sh", &["-c", "true"])));
    assert!(matches!(
        hooks.run_hook("after_link", WD, HookEvent::Exited { index: 2, success: true }),
        HookAction::Done
    ));
    assert!(matches!(
        hooks.run_hook("after_link", WD, HookEvent::Exited { index: usize::MAX, success: true }),
        HookAction::Done
    ));
}

#[test]
fn failing_hook_aborts_the_rest() {
    let hooks = sample();
    match hooks.run_hook("after_link", WD, HookEvent::Exited { index: 0, success: false }) {
        HookAction::Fail(e) => {
            assert_eq!(e.kind, ErrorKind::HookFailed);
            assert_eq!(e.message, "after_link");
        }
        other => panic!("expected a failure, got {other:?}"),
    }
}

#[test]
fn spawn_failure_aborts_the_rest() {
    let hooks = sample();
    match hooks.run_hook("after_link", WD, HookEvent::SpawnFailed { index: 1 }) {
        HookAction::Fail(e) => {
            assert_eq!(e.kind, ErrorKind::ProcessSpawn);
            assert_eq!(e.message, "after_link");
        }
        other => panic!("expected a failure, got {other:?}"),
    }
}

#[test]
fn malformed_hook_fails_when_its_turn_comes() {
    let mut hooks = Hooks::new();
    hooks.insert(
        "before_sync".to_string(),
        vec![Hook::Shell("true".to_string()), script("sh \"", "ls")],
    );
    let (index, _) = run_of(hooks.run_hook("before_sync", WD, HookEvent::Begin));
    assert_eq!(index, 0);
    match hooks.run_hook("before_sync", WD, HookEvent::Exited { index: 0, success: true }) {
        HookAction::Fail(e) => {
            assert_eq!(e.kind, ErrorKind::Config);
            assert_eq!(e.message, "malformed interpreter: sh \"");
        }
        other => panic!("expected a failure, got {other:?}"),
    }
}

#[test]
fn insert_replaces_the_hooks_of_a_name() {
    let mut hooks = sample();
    hooks.insert("before_link".to_string(), vec![Hook::Shell("one".to_string())]);
    hooks.insert("after_link".to_string(), vec![Hook::Shell("two".to_string())]);
    let (_, before) = run_of(hooks.run_hook("before_link", WD, HookEvent::Begin));
    assert_eq!(before, invocation("sh", &["-c", "one"]));
    let (_, after) = run_of(hooks.run_hook("after_link", WD, HookEvent::Begin));
    assert_eq!(after, invocation("sh", &["-c", "two"]));
    assert!(matches!(
        hooks.run_hook("after_link", WD, HookEvent::Exited { index: 0, success: true }),
        HookAction::Done
    ));
    hooks.insert("after_link".to_string(), vec![]);
    assert!(matches!(hooks.run_hook("after_link", WD, HookEvent::Begin), HookAction::Done));
}

#[test]
fn pre_and_post_name_the_hooks_around_an_operation() {
    let mut hooks = Hooks::new();
    hooks.insert("before_link".to_string(), vec![Hook::Shell("pre".to_string())]);
    hooks.insert("after_link".to_string(), vec![Hook::Shell("post".to_string())]);
    let (_, pre) = run_of(hooks.pre(WD, "link", HookEvent::Begin));
    assert_eq!(pre, invocation("sh", &["-c", "pre"]));
    let (_, post) = run_of(hooks.post(WD, "link", HookEvent::Begin));
    assert_eq!(post, invocation("sh", &["-c", "post"]));
    assert!(matches!(hooks.pre(WD, "sync", HookEvent::Begin), HookAction::Done));
}
