//! The sandbox, the subprocess provider and the shell, over simulated children.

use std::cell::RefCell;
use std::rc::Rc;

use harnless::exec::bash::{
    preview_decision, shell_step, BashLocal, ConfinedSpawner, Route, ShellCall, ShellReply, ShellStage,
    SHELL_PROGRAM,
};
use harnless::exec::sandbox::{LocalSandbox, PolicyHomeExt, RootProbe, SandboxMode};
use harnless::exec::subprocess::{
    coordinates, settle, signals_child, Capture, ChildState, Exit, SubprocessLocal,
    DEFAULT_MAX_OUTPUT_BYTES,
};
use harnless::local_fs::path::normalize;
use harnless::seam::error::{ErrorCode, SeamError};
use harnless::seam::exec::{
    ConfineHint, Confinement, Enforced, PolicyHome, Sandbox, Spawn, SpawnHandle, Subprocess,
};

fn policy(root: &str, mode: SandboxMode) -> PolicyHome {
    PolicyHome::from_root_and_mode(root, mode)
}

fn argv() -> Vec<String> {
    vec!["/bin/bash".to_string(), "-c".to_string(), "true".to_string()]
}

fn canonical(root: &str) -> RootProbe {
    RootProbe::Canonical(root.to_string())
}

/// A sandbox over one answer about the root, recording what it was asked and
/// what it said.
#[derive(Clone)]
struct Recording {
    inner: Rc<LocalSandbox>,
    missing: bool,
    asked: Rc<RefCell<Vec<Vec<String>>>>,
    said: Rc<RefCell<Vec<Enforced>>>,
}

fn recording(inner: LocalSandbox, missing: bool) -> Recording {
    Recording {
        inner: Rc::new(inner),
        missing,
        asked: Rc::new(RefCell::new(vec![])),
        said: Rc::new(RefCell::new(vec![])),
    }
}

impl Sandbox for Recording {
    fn enforce(&self, argv: &Vec<String>, policy: &PolicyHome) -> Result<Enforced, SeamError> {
        self.asked.borrow_mut().push(argv.clone());
        let probe = if self.missing {
            RootProbe::NotADirectory
        } else {
            canonical(&policy.workspace_root)
        };
        let verdict = self.inner.enforce_verdict(argv, policy, &probe);
        self.said.borrow_mut().push(verdict.clone());
        Ok(verdict)
    }
}

/// A child that already printed and exited.
struct Finished {
    stdout: Vec<u8>,
    stderr: Vec<u8>,
    exit: Exit,
    cap: usize,
}

impl SpawnHandle for Finished {
    fn output(&self) -> Result<String, SeamError> {
        let (mut out, mut err) = (Capture::new(), Capture::new());
        for chunk in self.stdout.chunks(7) {
            out.feed(chunk, self.cap);
        }
        for chunk in self.stderr.chunks(7) {
            err.feed(chunk, self.cap);
        }
        settle(&out, &err, self.exit, false)
    }

    fn cancel(&self) {}
}

/// A subprocess that understands `printf TEXT` and records every spawn.
#[derive(Clone)]
struct Printing {
    spawned: Rc<RefCell<Vec<Spawn>>>,
}

fn printing() -> Printing {
    Printing { spawned: Rc::new(RefCell::new(vec![])) }
}

impl Subprocess for Printing {
    type Handle = Finished;

    fn spawn(&self, spawn: &Spawn) -> Result<Finished, SeamError> {
        self.spawned.borrow_mut().push(spawn.clone());
        let c = coordinates(spawn)?;
        let text = c.args.last().and_then(|l| l.strip_prefix("printf ")).unwrap_or("");
        Ok(Finished {
            stdout: text.as_bytes().to_vec(),
            stderr: vec![],
            exit: Exit::Code(0),
            cap: DEFAULT_MAX_OUTPUT_BYTES,
        })
    }
}

/// The confined spawner in front of a plain subprocess.
struct Routed {
    spawner: ConfinedSpawner,
    plain: Printing,
}

impl Subprocess for Routed {
    type Handle = Finished;

    fn spawn(&self, spawn: &Spawn) -> Result<Finished, SeamError> {
        match self.spawner.route(spawn) {
            Route::Plain => self.plain.spawn(spawn),
            Route::Confined(_) => panic!("took the confined path"),
            Route::Refused(e) => Err(e),
        }
    }
}

// ---------------------------------------------------------------------------
// The sandbox
// ---------------------------------------------------------------------------

#[test]
fn prepare_scrubbed_env_filters_extras_by_needle() {
    let scrubbed = LocalSandbox::new().prepare_scrubbed_env(
        vec![("PATH".to_string(), "/bin".to_string())],
        vec![
            ("HARNLESS_TEST_FAKE_TOKEN".to_string(), "hunter2".to_string()),
            ("HARNLESS_TEST_SAFE_VAR".to_string(), "keepme".to_string()),
        ],
    );
    assert!(
        !scrubbed.iter().any(|(n, _)| n == "HARNLESS_TEST_FAKE_TOKEN"),
        "credential-shaped extra survived the scrub"
    );
    assert!(
        scrubbed.iter().any(|(n, v)| n == "HARNLESS_TEST_SAFE_VAR" && v == "keepme"),
        "safe extra was dropped"
    );
    assert!(scrubbed.iter().any(|(n, _)| n == "PATH"));
}

#[test]
fn an_extra_replaces_what_was_inherited() {
    let scrubbed = LocalSandbox::new().prepare_scrubbed_env(
        vec![("LANG".to_string(), "C".to_string()), ("my_api_x".to_string(), "1".to_string())],
        vec![("LANG".to_string(), "fr".to_string())],
    );
    assert_eq!(scrubbed, vec![("LANG".to_string(), "fr".to_string())]);
    let names = vec!["AWS_REGION".to_string(), "HOME".to_string(), "passwd".to_string()];
    assert_eq!(LocalSandbox::new().doomed_names(&names), vec!["AWS_REGION", "passwd"]);
}

#[test]
fn one_policy_home_drives_both_fs_and_exec_providers() {
    let root = "/tmp";
    let home = policy(root, SandboxMode::SandboxLocal);
    let decision = LocalSandbox::new().enforce_verdict(&argv(), &home, &canonical(root));
    assert!(decision.allowed);
    assert_eq!("sandbox-local", decision.mode);
    assert!(
        decision.reason.contains(root),
        "exec verdict confined to a different root than the policy declares: {}",
        decision.reason
    );
    assert!(normalize("inside/file.txt").is_some());
    assert!(normalize("/etc/passwd").is_none());
}

#[test]
fn policy_home_mode_round_trips_through_the_seam_boolean() {
    let unconfined = policy("/tmp", SandboxMode::Unconfined);
    assert!(!unconfined.default_confined);
    assert_eq!(SandboxMode::Unconfined, unconfined.default_mode());
    let confined = policy("/tmp", SandboxMode::SandboxLocal);
    assert!(confined.default_confined);
    assert_eq!(SandboxMode::SandboxLocal, confined.default_mode());
    let denied = policy("/tmp", SandboxMode::DenyAll);
    assert!(denied.default_confined);
}

#[test]
fn sandbox_local_reports_exactly_what_it_enforced() {
    let home = policy("/tmp", SandboxMode::SandboxLocal);
    let decision = LocalSandbox::new().enforce_verdict(&argv(), &home, &canonical("/tmp"));
    assert!(decision.allowed);
    assert!(decision.confined);
    assert!(decision.reason.contains("best-effort"));
    assert!(decision.reason.contains("NOT kernel-enforced"));
}

#[test]
fn refusal_is_an_auditable_verdict_on_the_seam_never_a_quiet_pass() {
    let confined = policy("/tmp", SandboxMode::SandboxLocal);
    let unconfined = PolicyHome { workspace_root: "/tmp".to_string(), default_confined: false };
    let denied = LocalSandbox::with_mode(SandboxMode::DenyAll).enforce_verdict(
        &argv(),
        &confined,
        &canonical("/tmp"),
    );
    let passed = LocalSandbox::new().enforce_verdict(&argv(), &unconfined, &canonical("/tmp"));
    assert!(!denied.allowed);
    assert!(!denied.reason.is_empty());
    assert_ne!(denied, passed);
    assert!(!denied.confined, "a refusal must not look confined");
    assert_eq!("deny-all", denied.mode);
    assert!(passed.allowed);
}

#[test]
fn seam_enforce_and_verdict_body_agree() {
    let home = policy("/tmp", SandboxMode::SandboxLocal);
    let via_seam = recording(LocalSandbox::new(), false).enforce(&argv(), &home).expect("decide");
    let direct = LocalSandbox::new().enforce_verdict(
        &vec!["/bin/bash".to_string()],
        &home,
        &canonical("/tmp"),
    );
    assert_eq!(via_seam, direct);
}

#[test]
fn deny_all_enforced_carries_the_refusal_verdict_and_reason() {
    let home = policy("/tmp", SandboxMode::SandboxLocal);
    let enforced = LocalSandbox::with_mode(SandboxMode::DenyAll).enforce_verdict(
        &argv(),
        &home,
        &canonical("/tmp"),
    );
    assert_eq!(
        Enforced {
            confined: false,
            allowed: false,
            mode: "deny-all".to_string(),
            reason: enforced.reason.clone(),
        },
        enforced
    );
    assert!(!enforced.reason.is_empty(), "a refusal must explain itself");
    assert!(
        enforced.reason.contains("refus") || enforced.reason.contains("denied"),
        "reason must state the denial, got: {}",
        enforced.reason
    );
}

#[test]
fn unconfined_enforced_reports_an_allowed_run() {
    let home = policy("/tmp", SandboxMode::Unconfined);
    let enforced = LocalSandbox::new().enforce_verdict(&argv(), &home, &canonical("/tmp"));
    assert!(enforced.allowed, "unconfined policy permits the run");
    assert!(!enforced.confined, "nothing was confined");
    assert_eq!("unconfined", enforced.mode);
    assert!(!enforced.reason.is_empty());
}

#[test]
fn sandbox_local_enforced_reports_a_confined_allowed_run() {
    let home = policy("/tmp", SandboxMode::SandboxLocal);
    let enforced = LocalSandbox::new().enforce_verdict(&argv(), &home, &canonical("/tmp"));
    assert!(enforced.allowed);
    assert!(enforced.confined);
    assert_eq!("sandbox-local", enforced.mode);
    assert!(enforced.reason.contains("best-effort"));
    assert!(enforced.reason.contains("NOT kernel-enforced"));
}

#[test]
fn an_unestablishable_root_denies_on_the_seam_not_in_a_side_report() {
    let home = policy("/nonexistent/root-for-verdict-test", SandboxMode::SandboxLocal);
    for probe in [RootProbe::NotADirectory, RootProbe::Unresolved("gone".to_string())] {
        let enforced = LocalSandbox::new().enforce_verdict(&argv(), &home, &probe);
        assert!(!enforced.allowed, "an unenforceable root must refuse");
        assert!(!enforced.confined, "a refusal must not look confined");
        assert_eq!("sandbox-local", enforced.mode);
        assert!(enforced.reason.contains("cannot be established"), "{enforced:?}");
    }
}

#[test]
fn applying_confinement_fails_closed() {
    let sandbox = LocalSandbox::new();
    assert_eq!(sandbox.pin_error("gone").code, ErrorCode::SandboxDenied);
    assert_eq!(
        sandbox.rlimit_error("EPERM").message,
        "setrlimit(RLIMIT_AS) failed: EPERM"
    );
}

// ---------------------------------------------------------------------------
// The subprocess
// ---------------------------------------------------------------------------

fn spawn_of(parts: &[&str]) -> Spawn {
    Spawn { argv: parts.iter().map(|s| s.to_string()).collect(), cwd: None, confine: None }
}

#[test]
fn spawn_is_exact_argv_with_no_shell_rewriting() {
    let parts = ["/bin/sh", "-c", "printf '%s\\n' \"$@\" | wc -l", "--", "*.txt"];
    let c = coordinates(&spawn_of(&parts)).expect("spawn");
    assert_eq!(c.program, parts[0]);
    assert_eq!(c.args, parts[1..]);
}

#[test]
fn cwd_coordinate_is_applied() {
    let spawn = Spawn { cwd: Some("/tmp".to_string()), ..spawn_of(&["/bin/sh", "-c", "pwd"]) };
    assert_eq!(coordinates(&spawn).unwrap().cwd.as_deref(), Some("/tmp"));
}

#[test]
fn stdout_and_stderr_are_captured_in_order_per_stream() {
    let child = Finished {
        stdout: b"out".to_vec(),
        stderr: b"err".to_vec(),
        exit: Exit::Code(0),
        cap: DEFAULT_MAX_OUTPUT_BYTES,
    };
    let out = child.output().expect("exit 0");
    assert!(out.contains("out"), "stdout missing: {out:?}");
    assert!(out.contains("err"), "stderr missing: {out:?}");
}

#[test]
fn capture_is_bounded_and_truncation_is_reported() {
    let provider = SubprocessLocal::with_max_output_bytes(1024);
    let child = Finished {
        stdout: vec![b'a'; 8000],
        stderr: vec![],
        exit: Exit::Code(0),
        cap: provider.max_output_bytes,
    };
    let out = child.output().expect("exit 0");
    let payload = out.split("[stdout truncated:").next().expect("split");
    let retained = payload.as_bytes().iter().filter(|b| **b == b'a').count();
    assert_eq!(1024, retained, "cap not exactly enforced");
    assert!(out.contains("[stdout truncated:"), "truncation unreported: {out:?}");
    assert!(out.contains("6976"), "the dropped count is wrong: {out:?}");
}

#[test]
fn nonzero_exit_is_a_spawn_failure_with_output_attached() {
    let child =
        Finished { stdout: vec![], stderr: b"boom".to_vec(), exit: Exit::Code(3), cap: 100 };
    let err = child.output().expect_err("exit 3 must fail");
    assert_eq!(ErrorCode::SpawnFailed, err.code);
    assert!(err.message.contains("exit code 3"), "code lost: {}", err.display());
    assert!(err.message.contains("boom"), "stderr lost: {}", err.display());
}

#[test]
fn empty_argv_is_a_spawn_failure() {
    let err = match coordinates(&spawn_of(&[])) {
        Ok(_) => panic!("empty argv must fail"),
        Err(err) => err,
    };
    assert_eq!(ErrorCode::SpawnFailed, err.code);
}

#[test]
fn a_cancelled_run_is_reported_as_cancelled() {
    let empty = Capture::new();
    let err = settle(&empty, &empty, Exit::Code(0), true).unwrap_err();
    assert_eq!(ErrorCode::ExecCancelled, err.code);
    let err = settle(&empty, &empty, Exit::Signal, false).unwrap_err();
    assert_eq!(ErrorCode::SpawnFailed, err.code);
    assert!(err.message.contains("signal"), "{}", err.message);
    assert_eq!(Exit::Code(-1).exit_label(), "exit code -1");
}

#[test]
fn bytes_that_are_no_text_are_replaced() {
    let mut c = Capture::new();
    c.feed(&[b'o', 0xff, b'k'], 100);
    assert_eq!(settle(&c, &Capture::new(), Exit::Code(0), false).unwrap(), "o\u{fffd}k");
}

#[test]
fn only_our_own_running_child_is_signalled() {
    assert!(signals_child(false, ChildState::Running));
    assert!(!signals_child(true, ChildState::Running));
    assert!(!signals_child(false, ChildState::Exited));
    assert!(!signals_child(false, ChildState::Unknown));
    assert_eq!(SubprocessLocal::new().max_output_bytes, DEFAULT_MAX_OUTPUT_BYTES);
}

// ---------------------------------------------------------------------------
// The shell
// ---------------------------------------------------------------------------

#[test]
fn argv_handed_to_sandbox_is_byte_identical_to_argv_spawned() {
    let command = "echo 'a \"b\" $c * ? \u{4e2d}\u{6587} \\ back' > /dev/null";
    let (sub, sandbox) = (printing(), recording(LocalSandbox::new(), false));
    let shell = BashLocal::new(sub.clone(), sandbox.clone());
    shell.exec(command, &policy(".", SandboxMode::Unconfined)).expect("run");
    let seen = sandbox.asked.borrow_mut().pop().expect("sandbox consulted");
    let spawned = sub.spawned.borrow_mut().pop().expect("subprocess spawned");
    assert_eq!(seen, spawned.argv, "sandbox saw a different argv than the one that spawned");
    assert_eq!(seen, vec![SHELL_PROGRAM.to_string(), "-c".to_string(), command.to_string()]);
    assert_eq!(seen[2].as_bytes(), command.as_bytes(), "command element was rewritten");
    assert_eq!(Some(".".to_string()), spawned.cwd);
}

#[test]
fn denied_command_surfaces_an_auditable_enforced_result() {
    let sub = printing();
    let shell = BashLocal::new(sub.clone(), recording(LocalSandbox::new(), true));
    let err = shell
        .exec(
            "touch /tmp/must-not-exist-13",
            &policy("/nonexistent/root-for-conformance", SandboxMode::SandboxLocal),
        )
        .expect_err("refusal must not pass");
    assert_eq!(ErrorCode::SandboxDenied, err.code, "refusal must be sandbox-denied");
    assert!(err.message.contains("mode=sandbox-local"), "{}", err.message);
    assert!(sub.spawned.borrow().is_empty(), "denied command still spawned");
}

#[test]
fn denied_command_never_runs_even_against_a_real_shell() {
    let sub = printing();
    let sandbox = recording(LocalSandbox::with_mode(SandboxMode::DenyAll), false);
    let shell = BashLocal::new(sub.clone(), sandbox);
    let err = shell
        .exec("touch marker", &policy(".", SandboxMode::DenyAll))
        .expect_err("deny-all must refuse");
    assert_eq!(ErrorCode::SandboxDenied, err.code);
    assert!(sub.spawned.borrow().is_empty(), "denied command executed anyway");
}

#[test]
fn allowed_command_runs_through_the_real_pipeline() {
    let shell = BashLocal::new(printing(), recording(LocalSandbox::new(), false));
    let out = shell.exec("printf shell-ok", &policy(".", SandboxMode::Unconfined)).expect("run");
    assert_eq!("shell-ok", out);
}

#[test]
fn unconfined_path_never_touches_the_confined_spawner() {
    let plain = printing();
    let routed = Routed { spawner: ConfinedSpawner::new(), plain: plain.clone() };
    let shell = BashLocal::new(routed, recording(LocalSandbox::new(), false));
    let out = shell.exec("printf plain", &policy(".", SandboxMode::Unconfined)).expect("run");
    assert_eq!("plain", out);
    assert_eq!(
        1,
        plain.spawned.borrow().len(),
        "unconfined verdict must run on the plain subprocess path"
    );
    let spawn = plain.spawned.borrow_mut().pop().expect("spawned once");
    assert_eq!(
        vec![SHELL_PROGRAM.to_string(), "-c".to_string(), "printf plain".to_string()],
        spawn.argv,
        "unconfined argv was rewritten"
    );
    assert_eq!(Some(".".to_string()), spawn.cwd);
    assert!(spawn.confine.is_none(), "unconfined spawn carried a confine hint");
}

#[test]
fn confined_refusal_is_sandbox_denied_before_any_spawn() {
    let plain = printing();
    let sandbox = recording(LocalSandbox::new(), true);
    let routed = Routed { spawner: ConfinedSpawner::new(), plain: plain.clone() };
    let shell = BashLocal::new(routed, sandbox.clone());
    let err = shell
        .exec(
            "printf nope",
            &policy("/nonexistent/root-for-confined-spawn", SandboxMode::SandboxLocal),
        )
        .expect_err("refusal must not pass");
    assert_eq!(ErrorCode::SandboxDenied, err.code);
    assert!(err.message.contains("mode=sandbox-local"), "{}", err.message);
    assert!(err.message.contains("cannot be established"), "{}", err.message);
    assert!(plain.spawned.borrow().is_empty(), "refused command still spawned");
    let enforced = sandbox.said.borrow_mut().pop().expect("sandbox consulted");
    assert_eq!(
        Enforced {
            confined: false,
            allowed: false,
            mode: "sandbox-local".to_string(),
            reason: enforced.reason.clone(),
        },
        enforced
    );
}

#[test]
fn confined_spawn_refuses_unreadable_hint() {
    let spawn = Spawn {
        argv: argv(),
        cwd: Some("/tmp".to_string()),
        confine: Some(ConfineHint::Foreign),
    };
    match ConfinedSpawner::new().route(&spawn) {
        Route::Refused(err) => assert_eq!(ErrorCode::SandboxDenied, err.code),
        _ => panic!("an unreadable confinement hint must refuse the spawn"),
    }
}

#[test]
fn a_confined_spawn_carries_the_spawners_extras() {
    let home = policy("/tmp", SandboxMode::SandboxLocal);
    let hint = Confinement {
        policy: home,
        rlimit_as_bytes: Some(4096),
        extra_env: vec![("A".to_string(), "1".to_string())],
    };
    let spawn = Spawn {
        argv: argv(),
        cwd: None,
        confine: Some(ConfineHint::Confine(hint)),
    };
    let spawner = ConfinedSpawner::new().with_extra_env("B".to_string(), "2".to_string());
    match spawner.route(&spawn) {
        Route::Confined(c) => {
            assert_eq!(c.rlimit_as_bytes, Some(4096));
            assert_eq!(c.extra_env.len(), 2);
            assert!(c.extra_env.contains(&("B".to_string(), "2".to_string())));
        }
        _ => panic!("routed elsewhere"),
    }
    assert_eq!(spawner.exited().code, ErrorCode::SpawnFailed);
}

#[test]
fn a_preview_is_the_verdict_on_the_exact_argv() {
    let home = policy("/tmp", SandboxMode::SandboxLocal);
    let preview = preview_decision("printf x", &home, &canonical("/tmp"));
    let shell = BashLocal::new(printing(), recording(LocalSandbox::new(), false));
    let argv = shell.argv_for("printf x");
    assert_eq!(preview, LocalSandbox::new().enforce_verdict(&argv, &home, &canonical("/tmp")));
}

#[test]
fn a_run_spawns_only_what_the_sandbox_allowed() {
    let policy = policy("/w", SandboxMode::SandboxLocal);
    let report = |allowed: bool, confined: bool| Enforced {
        mode: "sandbox-local".to_string(),
        confined,
        allowed,
        reason: "r".to_string(),
    };
    let step = |stage, reply: ShellReply<u8>| shell_step("ls", &policy, stage, reply);
    match step(ShellStage::Consulting, ShellReply::Consulted(Ok(report(true, true)))) {
        (Some(ShellStage::Spawning), ShellCall::Spawn(spawn)) => {
            assert_eq!(spawn.argv, vec!["/bin/bash", "-c", "ls"]);
            assert_eq!(spawn.cwd, Some("/w".to_string()));
            assert!(spawn.confine.is_some());
        }
        _ => panic!("an allowed command was not spawned"),
    }
    match step(ShellStage::Consulting, ShellReply::Consulted(Ok(report(false, false)))) {
        (None, ShellCall::Done(Err(e))) => assert_eq!(e.code, ErrorCode::SandboxDenied),
        _ => panic!("a refused command went on"),
    }
    let failed = || SeamError::new(ErrorCode::SpawnFailed, "gone");
    match step(ShellStage::Consulting, ShellReply::Consulted(Err(failed()))) {
        (None, ShellCall::Done(Err(e))) => assert_eq!(e.message, "gone"),
        _ => panic!("an undecided command went on"),
    }
    match step(ShellStage::Spawning, ShellReply::Spawned(Ok(7))) {
        (Some(ShellStage::Awaiting), ShellCall::Await(7)) => {}
        _ => panic!("a process was not awaited"),
    }
    match step(ShellStage::Spawning, ShellReply::Spawned(Err(failed()))) {
        (None, ShellCall::Done(Err(e))) => assert_eq!(e.code, ErrorCode::SpawnFailed),
        _ => panic!("a failed spawn went on"),
    }
    match step(ShellStage::Awaiting, ShellReply::Output(Ok("out".to_string()))) {
        (None, ShellCall::Done(Ok(out))) => assert_eq!(out, "out"),
        _ => panic!("the output was lost"),
    }
}
