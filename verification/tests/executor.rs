//! The execution-world suite: a reference world passes it, and each case
//! catches the world that breaks the obligation it is about. The world is
//! simulated: a scratch root, the marker files commands leave, and the
//! environment a child sees.

use std::collections::BTreeSet;

use harnless::conformance::executor_run::{Action, Event, ExecCase};
use harnless::conformance::executor_suite::{
    announced, audit_refusal, await_sentinel, cancellation_is_honoured,
    confined_run_is_actually_confined, consumer_routes_on_allowed, default_permit,
    denied_command_never_runs, enforced_reason_is_never_blank, failing_command_is_typed_error, gate,
    inject, injected_deny_reaches_shell, inspect_command, marker_in, probe_running, ProbeEvent, ProbeMove, probe_spawn,
    quiet_probe, quiet_spawn, refusal_is_never_reported_as_confined, sandbox_sees_exact_argv,
    touch_command, wait_until_quiet, Await, Consult, Drive, ExecFixture, Executors, Measured, Plan,
    Probe, Quiet, Ran, RanUp, Recorder, Span, Spawned, Verdict, CANCEL_SENTINEL, CONTROL_ENV_NAME,
    CONTROL_ENV_VALUE, EXECUTOR_CONFORMANCE_CASES, FAILING_COMMAND, INJECTED_MARKER, PROOF_ENV_NAME,
    PROOF_ENV_VALUE,
};
use harnless::conformance::report::Violation;
use harnless::seam::error::{ErrorCode, SeamError};
use harnless::seam::exec::{Enforced, PolicyHome, Spawn};

const ROOT: &str = "/scratch";

#[derive(Clone, Copy, Debug, PartialEq, Eq)]
enum Defect {
    Honest,
    RewritesArgv,
    BlankReason,
    RefusalLooksConfined,
    IgnoresRefusal,
    RefusesBeforeSandbox,
    ClaimsConfinement,
    IgnoresCancel,
    FabricatesSuccess,
    RelabelsFailure,
    Panics,
    SandboxPanics,
    SpawnPanics,
    EarlyRefusal,
}

/// The world under test: its files, the verdict installed on its sandbox, and
/// what its legs were handed.
struct World {
    defect: Defect,
    files: BTreeSet<String>,
    marker: Option<String>,
    installed: Option<Enforced>,
    consulted: Recorder<Vec<String>>,
    handed: Recorder<Spawn>,
}

fn sh(command: &str) -> Vec<String> {
    vec!["/bin/sh".to_string(), "-c".to_string(), command.to_string()]
}

fn scrubbed(name: &str) -> bool {
    let upper = name.to_ascii_uppercase();
    ["TOKEN", "SECRET", "KEY", "PASSWORD", "CREDENTIAL"].iter().any(|needle| upper.contains(needle))
}

impl World {
    fn new(defect: Defect) -> World {
        World {
            defect,
            files: BTreeSet::new(),
            marker: None,
            installed: None,
            consulted: Recorder::new(),
            handed: Recorder::new(),
        }
    }

    fn enforce(&mut self, argv: &Vec<String>, policy: &PolicyHome) -> Verdict {
        self.consulted.push(argv.clone());
        let refused = policy.default_confined && policy.workspace_root != ROOT;
        match self.defect {
            Defect::SandboxPanics => Verdict::Panicked,
            Defect::BlankReason => Verdict::Decided(Enforced {
                confined: policy.default_confined,
                allowed: true,
                mode: "sandbox-local".to_string(),
                reason: String::new(),
            }),
            Defect::RefusalLooksConfined => Verdict::Decided(Enforced {
                confined: refused || policy.default_confined,
                allowed: !refused,
                mode: "sandbox-local".to_string(),
                reason: format!("verdict for {:?}", argv.first()),
            }),
            _ => {
                if let Some(verdict) = &self.installed {
                    return Verdict::Decided(verdict.clone());
                }
                let (confined, allowed, mode, reason) = if refused {
                    (false, false, "sandbox-local", "workspace root cannot be entered")
                } else if policy.default_confined {
                    (true, true, "sandbox-local", "environment scrubbed; cwd pinned")
                } else {
                    (false, true, "unconfined", "policy allows unconfined execution")
                };
                Verdict::Decided(Enforced {
                    confined,
                    allowed,
                    mode: mode.to_string(),
                    reason: reason.to_string(),
                })
            }
        }
    }

    /// What a command prints and exits with, in a directory and environment.
    fn run(&mut self, command: &str, cwd: &str, env: &[(String, String)]) -> (i32, String) {
        if let Some(marker) = &self.marker {
            if command.contains(marker.as_str()) {
                self.files.insert(marker.clone());
            }
        }
        if command.ends_with(FAILING_COMMAND) {
            return (7, "failing-on-purpose\n".to_string());
        }
        if command == inspect_command() {
            let vars: Vec<String> = env.iter().map(|(k, v)| format!("{k}={v}\n")).collect();
            return (0, format!("{cwd}\n{}", vars.concat()));
        }
        (0, String::new())
    }

    fn spawn(&mut self, argv: Vec<String>, policy: &PolicyHome, confined: bool) -> Ran {
        if self.defect == Defect::SpawnPanics {
            return Ran::Panicked;
        }
        let command = argv[2].clone();
        self.handed.push(Spawn { argv, cwd: Some(policy.workspace_root.clone()), confine: None });
        let mut env = vec![("PATH".to_string(), "/bin".to_string())];
        let mut cwd = policy.workspace_root.clone();
        if confined {
            env.push((PROOF_ENV_NAME.to_string(), PROOF_ENV_VALUE.to_string()));
            env.push((CONTROL_ENV_NAME.to_string(), CONTROL_ENV_VALUE.to_string()));
            env.retain(|(name, _)| !scrubbed(name));
            if self.defect == Defect::ClaimsConfinement {
                cwd = "/tmp".to_string();
            }
        }
        match self.run(&command, &cwd, &env) {
            (0, out) => Ran::Output(out),
            (code, out) => Ran::Failed(
                ErrorCode::SpawnFailed,
                format!("process exited with {:?}; {out}", Some(code)),
            ),
        }
    }

    fn exec(&mut self, command: &str, policy: &PolicyHome) -> Ran {
        let decide = |verdict: Verdict| match verdict {
            Verdict::Decided(e) => Ok(e),
            Verdict::Failed(e) => Err(Ran::Failed(e.code, e.message)),
            Verdict::Panicked => Err(Ran::Panicked),
        };
        let denied = |e: &Enforced| {
            Ran::Failed(
                ErrorCode::SandboxDenied,
                format!(
                    "sandbox denied command: mode={} confined={} reason={:?}",
                    e.mode, e.confined, e.reason
                ),
            )
        };
        match self.defect {
            Defect::Panics => Ran::Panicked,
            Defect::EarlyRefusal => {
                Ran::Failed(ErrorCode::ToolDenied, "policy refuses everything".to_string())
            }
            Defect::RefusesBeforeSandbox => self.spawn(sh(command), policy, false),
            Defect::FabricatesSuccess => match self.spawn(sh(command), policy, false) {
                Ran::Failed(_, message) => Ran::Output(format!("output: {message}")),
                ran => ran,
            },
            Defect::RelabelsFailure => match self.spawn(sh(command), policy, false) {
                Ran::Failed(_, message) => Ran::Failed(ErrorCode::ToolNotFound, message),
                ran => ran,
            },
            Defect::RewritesArgv => {
                let seen = sh(&format!("true; {command}"));
                match decide(self.enforce(&seen, policy)) {
                    Err(ran) => return ran,
                    Ok(e) if !e.allowed => return denied(&e),
                    Ok(_) => {}
                }
                let _ = self.spawn(sh(&format!("echo rewritten; {command}")), policy, false);
                Ran::Output(String::new())
            }
            Defect::IgnoresRefusal => {
                let argv = sh(command);
                let e = match decide(self.enforce(&argv, policy)) {
                    Err(ran) => return ran,
                    Ok(e) => e,
                };
                let injected = e.reason.contains(INJECTED_MARKER);
                if injected && !e.confined {
                    return denied(&e);
                }
                self.spawn(argv, policy, false)
            }
            _ => {
                let argv = sh(command);
                match decide(self.enforce(&argv, policy)) {
                    Err(ran) => ran,
                    Ok(e) if !e.allowed => denied(&e),
                    Ok(e) => self.spawn(argv, policy, e.confined),
                }
            }
        }
    }

    /// Run a planned command with no marker left from before, telling whether
    /// it left one.
    fn drive(&mut self, drive: &Drive) -> (Ran, bool) {
        self.marker = drive.marker.clone();
        self.files.clear();
        let ran = self.exec(&drive.command, &drive.policy);
        (ran, !self.files.is_empty())
    }

    fn consult(&mut self, consult: &Consult) -> Verdict {
        self.enforce(&consult.argv, &consult.policy)
    }
}

fn fixture_for(defect: Defect, case: &str) -> ExecFixture {
    let confined = matches!(
        case,
        "confined_run_is_actually_confined"
            | "refusal_is_never_reported_as_confined"
            | "denied_command_never_runs"
            | "consumer_routes_on_allowed"
    );
    let fixture = ExecFixture::new().root(ROOT).confined(confined);
    let fixture = match defect {
        Defect::IgnoresCancel => fixture.cancel_timeout(Span::from_secs(3)),
        _ => fixture,
    };
    if case == "confined_run_is_actually_confined" {
        return fixture.proof_vars(PROOF_ENV_NAME, CONTROL_ENV_NAME).with_proof_vars_applied();
    }
    fixture
}

fn all_legs() -> Executors {
    Executors::new().shell().sandbox().subprocess().shell_over()
}

/// Perform one action of a case in the world.
fn perform(world: &mut World, action: Action) -> Result<Event, Vec<Violation>> {
    Ok(match action {
        Action::Consult { consult, installed } => {
            world.installed = installed;
            Event::Verdict(world.consult(&consult))
        }
        Action::RunRecorded(drive) => {
            let (ran, _) = world.drive(&drive);
            Event::Recorded {
                ran,
                consulted: world.consulted.last().cloned(),
                handed: world.handed.last().cloned(),
            }
        }
        Action::Run { drive, installed } => {
            world.installed = installed;
            let (ran, marker) = world.drive(&drive);
            Event::Ran { ran, marker }
        }
        Action::RunJudged { drive, verdict } => {
            world.installed = Some(verdict);
            let (ran, marker) = world.drive(&drive);
            Event::Ran { ran, marker }
        }
        Action::Canonicalize(root) => Event::Canonical(Ok(root)),
        Action::SpawnMeasured(_) => Event::Spawned(match world.defect {
            Defect::SpawnPanics => Spawned::Panicked,
            _ => Spawned::Accepted,
        }),
        Action::ProbeSentinel(_) => Event::Probed(Probe::Running),
        Action::ProbeQuiet(_) => Event::Quieted(Quiet::Quiet),
        Action::Measure { bound, .. } => {
            if world.defect == Defect::IgnoresCancel {
                Event::Measured {
                    measured: Measured::Waited(Ok("should-not-print".to_string())),
                    elapsed: Span::from_secs(bound.secs + 5),
                }
            } else {
                let e = SeamError::new(ErrorCode::ExecCancelled, "process cancelled");
                Event::Measured {
                    measured: Measured::Waited(Err(e)),
                    elapsed: Span { secs: 0, nanos: 5_000_000 },
                }
            }
        }
        Action::Done { violations, .. } => return Err(violations),
    })
}

fn check_with(world: &mut World, providers: Executors, fixture: ExecFixture, case: &str) -> Vec<Violation> {
    let (mut running, mut action) = ExecCase::begin(case, providers, Some(fixture));
    loop {
        match (perform(world, action), running) {
            (Err(violations), _) => return violations,
            (Ok(event), Some(case)) => (running, action) = case.resume(event),
            (Ok(_), None) => unreachable!("an action of a case that is over"),
        }
    }
}

fn check(defect: Defect, case: &str) -> Vec<Violation> {
    check_with(&mut World::new(defect), all_legs(), fixture_for(defect, case), case)
}

fn assert_bites(defect: Defect, case: &str) {
    let violations = check(defect, case);
    assert!(!violations.is_empty(), "defect {defect:?} passed the `{case}` case");
    assert!(
        violations.iter().all(|v| v.case == case),
        "violations from `{case}` were attributed elsewhere: {violations:?}"
    );
}

#[test]
fn executor_suite_case_list_is_the_documented_set() {
    assert_eq!(
        EXECUTOR_CONFORMANCE_CASES,
        [
            "sandbox_sees_exact_argv",
            "enforced_reason_is_never_blank",
            "refusal_is_never_reported_as_confined",
            "consumer_routes_on_allowed",
            "injected_deny_reaches_shell",
            "denied_command_never_runs",
            "confined_run_is_actually_confined",
            "cancellation_is_honoured",
            "failing_command_is_typed_error",
        ]
    );
}

#[test]
fn executor_suite_unknown_case_is_a_violation_not_a_panic() {
    let mut world = World::new(Defect::Honest);
    let violations = check_with(&mut world, Executors::new(), ExecFixture::new(), "not-a-case");
    assert_eq!(violations.len(), 1);
    assert_eq!(violations[0].case, "not-a-case");
}

#[test]
fn executor_suite_a_bundle_with_no_legs_skips_everything() {
    for case in EXECUTOR_CONFORMANCE_CASES {
        let mut world = World::new(Defect::Honest);
        let violations = check_with(&mut world, Executors::new(), ExecFixture::new(), case);
        assert!(violations.is_empty(), "an empty bundle must skip, not fail: {violations:?}");
    }
}

#[test]
fn fixture_policy_comes_from_the_fixture_root() {
    let fixture = ExecFixture::new().root("/tmp/scratch").confined(true);
    let policy = fixture.policy().expect("policy");
    assert_eq!(policy.workspace_root, "/tmp/scratch");
    assert!(policy.default_confined);
}

#[test]
fn recorder_reads_back_what_it_recorded() {
    let mut recorder = Recorder::<u32>::new();
    assert_eq!(recorder.last(), None);
    recorder.push(1);
    recorder.push(2);
    assert_eq!(recorder.last(), Some(&2));
}

#[test]
fn executor_conformance_every_case_passes_individually() {
    for case in EXECUTOR_CONFORMANCE_CASES {
        let violations = check(Defect::Honest, case);
        assert!(violations.is_empty(), "reference world violated `{case}`: {violations:?}");
    }
}

#[test]
fn executor_conformance_unknown_case_is_reported() {
    let violations = check(Defect::Honest, "not-a-real-case");
    assert_eq!(violations.len(), 1);
    assert_eq!(violations[0].case, "not-a-real-case");
}

#[test]
fn executor_conformance_a_bundle_with_no_legs_skips_everything() {
    let mut all = Vec::new();
    for case in EXECUTOR_CONFORMANCE_CASES {
        let mut world = World::new(Defect::Honest);
        all.extend(check_with(&mut world, Executors::new(), ExecFixture::new(), case));
    }
    assert!(all.is_empty(), "an empty bundle must skip, not fail: {all:?}");
}

#[test]
fn bites_argv_rewriting() {
    assert_bites(Defect::RewritesArgv, "sandbox_sees_exact_argv");
}

#[test]
fn bites_blank_reason() {
    assert_bites(Defect::BlankReason, "enforced_reason_is_never_blank");
}

#[test]
fn bites_refusal_reported_as_confinement() {
    assert_bites(Defect::RefusalLooksConfined, "refusal_is_never_reported_as_confined");
}

#[test]
fn bites_ignoring_a_refusal() {
    assert_bites(Defect::IgnoresRefusal, "consumer_routes_on_allowed");
}

#[test]
fn bites_running_a_denied_command() {
    assert_bites(Defect::IgnoresRefusal, "denied_command_never_runs");
}

#[test]
fn bites_confinement_that_is_not_applied() {
    assert_bites(Defect::ClaimsConfinement, "confined_run_is_actually_confined");
}

#[test]
fn bites_ignored_cancellation() {
    assert_bites(Defect::IgnoresCancel, "cancellation_is_honoured");
}

#[test]
fn bites_fabricated_success() {
    assert_bites(Defect::FabricatesSuccess, "failing_command_is_typed_error");
}

#[test]
fn bites_relabelled_failure() {
    assert_bites(Defect::RelabelsFailure, "failing_command_is_typed_error");
}

#[test]
fn bites_a_shell_that_refuses_before_the_sandbox() {
    let violations = check(Defect::RefusesBeforeSandbox, "sandbox_sees_exact_argv");
    assert!(
        violations.iter().all(|v| v.case == "sandbox_sees_exact_argv"),
        "unexpected attributions: {violations:?}"
    );
}

#[test]
fn a_shell_that_refuses_early_is_skipped_not_failed() {
    let violations = check(Defect::EarlyRefusal, "sandbox_sees_exact_argv");
    assert!(violations.is_empty(), "an early refusal must skip, not violate: {violations:?}");
}

#[test]
fn no_fixture_panics_the_suite() {
    let defects = [
        Defect::Honest,
        Defect::RewritesArgv,
        Defect::BlankReason,
        Defect::RefusalLooksConfined,
        Defect::IgnoresRefusal,
        Defect::RefusesBeforeSandbox,
        Defect::ClaimsConfinement,
        Defect::IgnoresCancel,
        Defect::FabricatesSuccess,
        Defect::RelabelsFailure,
        Defect::Panics,
        Defect::SandboxPanics,
        Defect::SpawnPanics,
    ];
    for case in EXECUTOR_CONFORMANCE_CASES {
        for defect in defects {
            assert!(check(defect, case).iter().all(|v| v.case == case));
        }
    }
}

#[test]
fn panicking_provider_is_reported_as_violation() {
    for (defect, case) in [
        (Defect::Panics, "failing_command_is_typed_error"),
        (Defect::SandboxPanics, "enforced_reason_is_never_blank"),
        (Defect::SpawnPanics, "cancellation_is_honoured"),
    ] {
        let violations = check(defect, case);
        assert!(!violations.is_empty(), "defect {defect:?} produced no violation on `{case}`");
    }
}

#[test]
fn executor_conformance_the_reference_passes_every_case_the_defects_fail() {
    let pairs = [
        (Defect::RewritesArgv, "sandbox_sees_exact_argv"),
        (Defect::BlankReason, "enforced_reason_is_never_blank"),
        (Defect::RefusalLooksConfined, "refusal_is_never_reported_as_confined"),
        (Defect::IgnoresRefusal, "consumer_routes_on_allowed"),
        (Defect::IgnoresRefusal, "denied_command_never_runs"),
        (Defect::ClaimsConfinement, "confined_run_is_actually_confined"),
        (Defect::IgnoresCancel, "cancellation_is_honoured"),
        (Defect::FabricatesSuccess, "failing_command_is_typed_error"),
        (Defect::RelabelsFailure, "failing_command_is_typed_error"),
    ];
    for (_, case) in pairs {
        let violations = check(Defect::Honest, case);
        assert!(
            violations.is_empty(),
            "reference world failed `{case}`, which a defect is supposed to fail: {violations:?}"
        );
    }
}

#[test]
fn a_fixture_that_could_not_be_built_is_one_violation() {
    let (running, action) = ExecCase::begin("cancellation_is_honoured", all_legs(), None);
    assert!(running.is_none());
    match action {
        Action::Done { violations, skips } => {
            assert_eq!(violations.len(), 1);
            assert!(violations[0].detail.contains("factory panicked"));
            assert!(skips.is_empty());
        }
        _ => panic!("the case started without a fixture"),
    }
    let v = gate("cancellation_is_honoured", false).unwrap();
    assert_eq!(v.case, "cancellation_is_honoured");
    assert!(v.detail.contains("fixture"), "{}", v.detail);
}

#[test]
fn installed_verdicts_are_recognisable() {
    let e = inject(true, false, "deny-all");
    assert!(e.reason.contains(INJECTED_MARKER));
    assert!(e.allowed && !e.confined);
    assert_eq!(e.mode, "deny-all");
    assert!(!default_permit().reason.contains(INJECTED_MARKER));
    assert!(default_permit().allowed);
}

#[test]
fn an_honest_refusal_passes_the_audit() {
    let e = Enforced {
        confined: false,
        allowed: false,
        mode: "sandbox-local".to_string(),
        reason: "no root".to_string(),
    };
    assert!(audit_refusal(&e).failures.is_empty());
    let e = Enforced { confined: true, ..e };
    assert!(!audit_refusal(&e).failures.is_empty());
}

#[test]
fn a_blind_installed_deny_is_caught() {
    let ok = Ran::Output(String::new());
    let denied = Ran::Failed(ErrorCode::SandboxDenied, "denied".to_string());
    assert!(injected_deny_reaches_shell(&denied, false, &ok).failures.is_empty());
    assert!(!injected_deny_reaches_shell(&ok, true, &ok).failures.is_empty());
    assert!(!injected_deny_reaches_shell(&denied, false, &denied).failures.is_empty());
}

#[test]
fn a_late_cancellation_names_both_lengths() {
    let measured = Measured::Waited(Err(SeamError::new(ErrorCode::ExecCancelled, "x")));
    let bound = Span::from_secs(3);
    let late = Span { secs: 4, nanos: 250_000_000 };
    let cx = cancellation_is_honoured(&measured, late, bound);
    assert_eq!(cx.failures.len(), 1);
    assert!(cx.failures[0].contains("4.25s"), "{}", cx.failures[0]);
    assert!(cancellation_is_honoured(&measured, bound, bound).failures.is_empty());
    assert!(!cancellation_is_honoured(&Measured::WaitPanicked, bound, bound).failures.is_empty());
    assert!(!cancellation_is_honoured(&Measured::CancelPanicked, bound, bound).failures.is_empty());
}

#[test]
fn probes_tell_a_quiet_world_from_a_running_one() {
    assert_eq!(probe_running(ProbeEvent::Spawned(false)), ProbeMove::Done(Probe::Refused));
    assert_eq!(probe_running(ProbeEvent::Spawned(true)), ProbeMove::Listen);
    assert_eq!(probe_running(ProbeEvent::Heard(Some(true))), ProbeMove::Done(Probe::Running));
    assert_eq!(probe_running(ProbeEvent::Heard(Some(false))), ProbeMove::Cancel);
    assert_eq!(probe_running(ProbeEvent::Heard(None)), ProbeMove::Cancel);
    assert_eq!(probe_running(ProbeEvent::Released(true)), ProbeMove::Done(Probe::SilentButReleased));
    assert_eq!(probe_running(ProbeEvent::Released(false)), ProbeMove::Done(Probe::Silent));
    assert_eq!(quiet_probe(false, true), Quiet::Rejected);
    assert_eq!(quiet_probe(true, true), Quiet::Quiet);
    assert_eq!(quiet_probe(true, false), Quiet::Stuck);
    assert!(announced(&Ok(format!("{CANCEL_SENTINEL}\n"))));
    assert!(!announced(&Ok("else".to_string())));
    assert!(matches!(await_sentinel(Probe::Running), Plan::Ask(())));
    assert!(matches!(wait_until_quiet(Quiet::Quiet), Plan::Ask(())));
    assert_eq!(
        probe_spawn("/w").argv,
        sh("echo harnless-conformance-running; sleep 120")
    );
    assert_eq!(quiet_spawn("/w"), Spawn { argv: sh("true"), cwd: Some("/w".to_string()), confine: None });
}

#[test]
fn awaiting_remembers_a_probe_that_was_never_released() {
    let mut a = Await::new();
    assert!(a.await_running(Probe::Refused, false).is_none());
    assert!(matches!(a.await_running(Probe::Refused, true), Some(Err(RanUp::NeverSpawned))));
    assert!(a.await_running(Probe::Silent, false).is_none());
    assert!(matches!(a.await_running(Probe::Refused, true), Some(Err(RanUp::SpawnedButQuiet))));
    assert!(matches!(a.await_running(Probe::Running, true), Some(Ok(()))));
}

#[test]
fn a_marker_is_named_after_its_case() {
    let marker = marker_in("/w", "denied_command_never_runs");
    assert!(marker.starts_with("/w/") && marker.contains("denied_command_never_runs"), "{marker}");
    assert!(touch_command(&marker).contains(&marker));
}

#[test]
fn an_outcome_is_described_by_its_code() {
    let ran = Ran::of(Err(SeamError::new(ErrorCode::SpawnFailed, "boom")));
    assert!(ran.described().contains("boom"), "{}", ran.described());
    assert!(Ran::of(Ok("out".to_string())).described().contains("out"));
    assert!(Span::from_secs(2).longer_than(Span { secs: 1, nanos: 999_999_999 }));
}

fn step(running: Option<ExecCase>, event: Event) -> (Option<ExecCase>, Action) {
    running.expect("the case is over").resume(event)
}

#[test]
fn a_missing_leg_is_a_skip_that_can_be_read() {
    let (_, action) =
        ExecCase::begin("failing_command_is_typed_error", Executors::new(), Some(ExecFixture::new().root("/w")));
    match action {
        Action::Done { violations, skips } => {
            assert!(violations.is_empty());
            assert_eq!(skips, vec!["provider supplied no shell leg".to_string()]);
        }
        _ => panic!("the case started without a shell"),
    }
}

#[test]
fn a_refusal_is_looked_for_under_the_fixture_policy_last() {
    let permit = || {
        Event::Verdict(Verdict::Decided(Enforced {
            confined: false,
            allowed: true,
            mode: "m".to_string(),
            reason: "r".to_string(),
        }))
    };
    let fixture = ExecFixture::new().root("/w").confined(true);
    let (running, first) =
        ExecCase::begin("refusal_is_never_reported_as_confined", all_legs(), Some(fixture));
    match first {
        Action::Consult { consult, installed: None } => {
            assert_eq!(consult.policy.workspace_root, "/w/harnless-conformance-vanished-root");
        }
        _ => panic!("the natural refusal comes first"),
    }
    let (running, second) = step(running, permit());
    match second {
        Action::Consult { consult, installed: Some(e) } => {
            assert_eq!(consult.argv, sh("true"));
            assert_eq!(consult.policy.workspace_root, "/w");
            assert!(consult.policy.default_confined);
            assert!(!e.allowed);
        }
        _ => panic!("a deny is installed next"),
    }
    let (running, last) = step(running, permit());
    assert!(running.is_none());
    match last {
        Action::Done { violations, .. } => {
            assert_eq!(violations.len(), 1);
            assert!(violations[0].detail.contains("no refusal is reachable"));
        }
        _ => panic!("two answers settle the case"),
    }
}

#[test]
fn nothing_is_measured_before_the_probes_settled() {
    let fixture = || Some(ExecFixture::new().root("/w").cancel_timeout(Span::from_secs(3)));
    let (running, first) = ExecCase::begin("cancellation_is_honoured", all_legs(), fixture());
    match first {
        Action::SpawnMeasured(spawn) => assert_eq!(
            spawn.argv,
            sh("echo harnless-conformance-running; sleep 8; echo should-not-print")
        ),
        _ => panic!("the measured command is spawned first"),
    }
    let (running, second) = step(running, Event::Spawned(Spawned::Accepted));
    assert!(matches!(second, Action::ProbeSentinel(_)));
    let (running, third) = step(running, Event::Probed(Probe::Running));
    assert!(matches!(third, Action::ProbeQuiet(_)));
    let (running, fourth) = step(running, Event::Quieted(Quiet::Quiet));
    assert!(matches!(fourth, Action::Measure { bound: Span { secs: 3, nanos: 0 }, .. }));
    let (running, last) = step(
        running,
        Event::Measured {
            measured: Measured::Unreached(RanUp::SpawnedButQuiet),
            elapsed: Span::from_secs(3),
        },
    );
    assert!(running.is_none());
    assert!(matches!(last, Action::Done { violations, .. } if violations.len() == 1));

    let (running, _) = ExecCase::begin("cancellation_is_honoured", all_legs(), fixture());
    let (running, _) = step(running, Event::Spawned(Spawned::Accepted));
    let (running, stuck) = step(running, Event::Probed(Probe::Silent));
    assert!(running.is_none());
    assert!(matches!(stuck, Action::Done { violations, .. } if violations.len() == 1));
}
