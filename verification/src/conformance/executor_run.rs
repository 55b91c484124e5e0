//! Running an executor case: which leg to turn to next, given what the legs
//! answered so far.
//!
//! A case is started with [`ExecCase::begin`]. The harness performs the action
//! it is handed and reports with [`ExecCase::resume`] what came of it, until the
//! action is [`Action::Done`].

use vstd::prelude::*;

use crate::conformance::executor_suite::{
    after_canonical, after_cancel_spawn, after_confined_verdict, after_denial, after_natural,
    after_quiet, after_sentinel, argv_opt, argv_outcome, argv_plan, await_sentinel, cancel_outcome,
    cancel_plan, cancellable, cancellation_is_honoured, cancellation_spawned, canonical_view, confined_outcome,
    confined_plan, confined_policy, confined_root, confined_run_is_actually_confined,
    confined_verdict, consumer_routes_on_allowed, denial_findings, denial_plan, denial_verdict,
    denied_command_never_runs, enforced_reason_is_never_blank, failing_command_is_typed_error,
    failing_outcome, failing_plan, gate, gate_failure, injected_deny_reaches_shell,
    injected_findings, injected_plan, injected_refusal_outcome, injected_verdict_for,
    inspect_command, installed, is_case, natural_refusal, plain_spawn, plan_cancellation, plan_confined,
    plan_denial, plan_exact_argv, plan_failing, plan_injected, plan_reasons, plan_refusal,
    plan_routing, probe_line, probe_spawn, quiet_spawn, reason_plan,
    refusal_is_never_reported_as_confined, refusal_plan, report_outcome, routing_findings,
    routing_plan, routing_verdict, routing_verdict_for, sandbox_sees_exact_argv, sh, sh_argv,
    spawn_opt, wait_until_quiet, Consult, ConsultView, Drive, DriveView, ExecFixture,
    ExecFixtureView, Executors, Measured, Plan, PlanView, Probe, Quiet, Ran, RanView, Span, Spawned,
    Verdict, VerdictView,
    EXECUTOR_CONFORMANCE_CASES,
};
use crate::conformance::report::{
    clean, failed, violations_view, Cx, CxView, Violation, ViolationView,
};
use crate::seam::exec::{Enforced, EnforcedView, PolicyHome, PolicyHomeView, Spawn, SpawnView};
use crate::text::{owned, same, texts};

verus! {

// ---------------------------------------------------------------------------
// What is asked, and what comes back
// ---------------------------------------------------------------------------

/// What the harness is to do next.
pub enum Action {
    /// Ask the sandbox about a command, with this verdict installed.
    Consult { consult: Consult, installed: Option<Enforced> },
    /// Run a command through the shell, rebuilt over legs that record what they
    /// are handed where the bundle has a constructor for that.
    RunRecorded(Drive),
    /// Take away the marker, run a command through the shell with this verdict
    /// installed, and look for the marker.
    Run { drive: Drive, installed: Option<Enforced> },
    /// The same, through the shell rebuilt over a sandbox that answers with this
    /// verdict and nothing else, where the bundle has a constructor for that.
    RunJudged { drive: Drive, verdict: Enforced },
    /// Resolve a path.
    Canonicalize(String),
    /// Spawn the command that is to be cancelled, and keep its handle.
    SpawnMeasured(Spawn),
    /// Spawn a probe and wait for it to announce itself, asking for it back
    /// where it does not.
    ProbeSentinel(Spawn),
    /// Spawn a trivial probe and wait for it to come back.
    ProbeQuiet(Spawn),
    /// Wait for the measured command; once a probe announces itself within the
    /// bound, cancel it; take the time until the wait is over.
    Measure { probe: Spawn, bound: Span },
    /// The case is over: what it found, and the fixtures it did without.
    Done { violations: Vec<Violation>, skips: Vec<String> },
}

/// What an [`Action`] says.
pub enum ActionView {
    Consult { consult: ConsultView, installed: Option<EnforcedView> },
    RunRecorded(DriveView),
    Run { drive: DriveView, installed: Option<EnforcedView> },
    RunJudged { drive: DriveView, verdict: EnforcedView },
    Canonicalize(Seq<char>),
    SpawnMeasured(SpawnView),
    ProbeSentinel(SpawnView),
    ProbeQuiet(SpawnView),
    Measure { probe: SpawnView, bound: Span },
    Done { violations: Seq<ViolationView>, skips: Seq<Seq<char>> },
}

/// What an optional verdict says.
pub open spec fn enforced_opt(e: Option<Enforced>) -> Option<EnforcedView> {
    match e {
        Some(v) => Some(v@),
        None => None,
    }
}

impl View for Action {
    type V = ActionView;

    open spec fn view(&self) -> ActionView {
        match *self {
            Action::Consult { consult, installed } => ActionView::Consult {
                consult: consult@,
                installed: enforced_opt(installed),
            },
            Action::RunRecorded(drive) => ActionView::RunRecorded(drive@),
            Action::Run { drive, installed } => ActionView::Run {
                drive: drive@,
                installed: enforced_opt(installed),
            },
            Action::RunJudged { drive, verdict } => ActionView::RunJudged {
                drive: drive@,
                verdict: verdict@,
            },
            Action::Canonicalize(path) => ActionView::Canonicalize(path@),
            Action::SpawnMeasured(spawn) => ActionView::SpawnMeasured(spawn@),
            Action::ProbeSentinel(spawn) => ActionView::ProbeSentinel(spawn@),
            Action::ProbeQuiet(spawn) => ActionView::ProbeQuiet(spawn@),
            Action::Measure { probe, bound } => ActionView::Measure { probe: probe@, bound },
            Action::Done { violations, skips } => ActionView::Done {
                violations: violations_view(violations@),
                skips: texts(skips@),
            },
        }
    }
}

/// What came of an action.
pub enum Event {
    /// The sandbox's answer.
    Verdict(Verdict),
    /// How a recorded run ended, and the last argv and spawn that were recorded.
    Recorded { ran: Ran, consulted: Option<Vec<String>>, handed: Option<Spawn> },
    /// How a run ended, and whether it left the marker.
    Ran { ran: Ran, marker: bool },
    /// The resolved path, or why there is none.
    Canonical(Result<String, String>),
    /// The answer to spawning the measured command.
    Spawned(Spawned),
    /// What the probe came to.
    Probed(Probe),
    /// What the trivial probe came to.
    Quieted(Quiet),
    /// How the measured command ended, and how long that took.
    Measured { measured: Measured, elapsed: Span },
}

/// What an [`Event`] says.
pub enum EventView {
    Verdict(VerdictView),
    Recorded {
        ran: RanView,
        consulted: Option<Seq<Seq<char>>>,
        handed: Option<SpawnView>,
    },
    Ran { ran: RanView, marker: bool },
    Canonical(Result<Seq<char>, Seq<char>>),
    Spawned(Spawned),
    Probed(Probe),
    Quieted(Quiet),
    Measured { measured: Measured, elapsed: Span },
}

impl View for Event {
    type V = EventView;

    open spec fn view(&self) -> EventView {
        match *self {
            Event::Verdict(v) => EventView::Verdict(v@),
            Event::Recorded { ran, consulted, handed } => EventView::Recorded {
                ran: ran@,
                consulted: argv_opt(consulted),
                handed: spawn_opt(handed),
            },
            Event::Ran { ran, marker } => EventView::Ran { ran: ran@, marker },
            Event::Canonical(r) => EventView::Canonical(canonical_view(r)),
            Event::Spawned(s) => EventView::Spawned(s),
            Event::Probed(p) => EventView::Probed(p),
            Event::Quieted(q) => EventView::Quieted(q),
            Event::Measured { measured, elapsed } => EventView::Measured { measured, elapsed },
        }
    }
}

// ---------------------------------------------------------------------------
// Where a case stands
// ---------------------------------------------------------------------------

/// What a case waits for, with what it learned on the way.
pub enum Stage {
    /// The recorded run.
    Handover { root: String },
    /// The report on the permitted policy.
    Permitted { confined: Consult },
    /// The report on the confined policy.
    Confined { permitted: Verdict },
    /// The answer about a root that cannot be entered.
    Natural { policy: PolicyHome },
    /// The answer under an installed refusal.
    InstalledRefusal,
    /// The first routed run.
    RouteFirst { drive: Drive },
    /// The second routed run.
    RouteSecond { drive: Drive, first: Ran, first_marker: bool },
    /// The third routed run.
    RouteThird { first: Ran, first_marker: bool, second: Ran, second_marker: bool },
    /// The run under an installed deny.
    InstalledDeny { drive: Drive },
    /// The run under an installed permit.
    InstalledPermit { denied: Ran, marker: bool },
    /// The verdict on the command that is to be denied.
    Denial { drive: Drive },
    /// The denied run.
    DeniedRun { verdict: Enforced },
    /// The canonical root.
    Resolving,
    /// The verdict on the confined policy of the canonical root.
    Confining { root: String },
    /// The confined run.
    ConfinedRun { root: String },
    /// The spawn of the measured command.
    Spawning { cwd: String },
    /// The probe that announces itself.
    Sentinel { cwd: String },
    /// The trivial probe.
    Quieting { cwd: String },
    /// The measured cancellation.
    Measuring,
    /// The failing run.
    Failing,
    /// Nothing more.
    Over,
}

/// What a [`Stage`] says.
pub enum StageView {
    Handover { root: Seq<char> },
    Permitted { confined: ConsultView },
    Confined { permitted: VerdictView },
    Natural { policy: PolicyHomeView },
    InstalledRefusal,
    RouteFirst { drive: DriveView },
    RouteSecond { drive: DriveView, first: RanView, first_marker: bool },
    RouteThird { first: RanView, first_marker: bool, second: RanView, second_marker: bool },
    InstalledDeny { drive: DriveView },
    InstalledPermit { denied: RanView, marker: bool },
    Denial { drive: DriveView },
    DeniedRun { verdict: EnforcedView },
    Resolving,
    Confining { root: Seq<char> },
    ConfinedRun { root: Seq<char> },
    Spawning { cwd: Seq<char> },
    Sentinel { cwd: Seq<char> },
    Quieting { cwd: Seq<char> },
    Measuring,
    Failing,
    Over,
}

impl View for Stage {
    type V = StageView;

    open spec fn view(&self) -> StageView {
        match *self {
            Stage::Handover { root } => StageView::Handover { root: root@ },
            Stage::Permitted { confined } => StageView::Permitted { confined: confined@ },
            Stage::Confined { permitted } => StageView::Confined { permitted: permitted@ },
            Stage::Natural { policy } => StageView::Natural { policy: policy@ },
            Stage::InstalledRefusal => StageView::InstalledRefusal,
            Stage::RouteFirst { drive } => StageView::RouteFirst { drive: drive@ },
            Stage::RouteSecond { drive, first, first_marker } => StageView::RouteSecond {
                drive: drive@,
                first: first@,
                first_marker,
            },
            Stage::RouteThird { first, first_marker, second, second_marker } => {
                StageView::RouteThird {
                    first: first@,
                    first_marker,
                    second: second@,
                    second_marker,
                }
            },
            Stage::InstalledDeny { drive } => StageView::InstalledDeny { drive: drive@ },
            Stage::InstalledPermit { denied, marker } => StageView::InstalledPermit {
                denied: denied@,
                marker,
            },
            Stage::Denial { drive } => StageView::Denial { drive: drive@ },
            Stage::DeniedRun { verdict } => StageView::DeniedRun { verdict: verdict@ },
            Stage::Resolving => StageView::Resolving,
            Stage::Confining { root } => StageView::Confining { root: root@ },
            Stage::ConfinedRun { root } => StageView::ConfinedRun { root: root@ },
            Stage::Spawning { cwd } => StageView::Spawning { cwd: cwd@ },
            Stage::Sentinel { cwd } => StageView::Sentinel { cwd: cwd@ },
            Stage::Quieting { cwd } => StageView::Quieting { cwd: cwd@ },
            Stage::Measuring => StageView::Measuring,
            Stage::Failing => StageView::Failing,
            Stage::Over => StageView::Over,
        }
    }
}

impl StageView {
    /// Whether the stage waits for such an event.
    pub open spec fn expects(self, e: EventView) -> bool {
        match self {
            StageView::Handover { .. } => e is Recorded,
            StageView::Permitted { .. } => e is Verdict,
            StageView::Confined { .. } => e is Verdict,
            StageView::Natural { .. } => e is Verdict,
            StageView::InstalledRefusal => e is Verdict,
            StageView::Denial { .. } => e is Verdict,
            StageView::Confining { .. } => e is Verdict,
            StageView::Resolving => e is Canonical,
            StageView::Spawning { .. } => e is Spawned,
            StageView::Sentinel { .. } => e is Probed,
            StageView::Quieting { .. } => e is Quieted,
            StageView::Measuring => e matches EventView::Measured { elapsed, .. } && elapsed.wf(),
            StageView::Over => false,
            _ => e is Ran,
        }
    }

    /// Whether the action asks for what the stage waits for.
    pub open spec fn asked_by(self, a: ActionView) -> bool {
        match a {
            ActionView::Consult { .. } => forall|v: VerdictView|
                #[trigger] self.expects(EventView::Verdict(v)),
            ActionView::RunRecorded(_) => self is Handover,
            ActionView::Run { .. } => forall|ran: RanView, marker: bool|
                #[trigger] self.expects(EventView::Ran { ran, marker }),
            ActionView::RunJudged { .. } => self is InstalledDeny || self is InstalledPermit,
            ActionView::Canonicalize(_) => self is Resolving,
            ActionView::SpawnMeasured(_) => self is Spawning,
            ActionView::ProbeSentinel(_) => self is Sentinel,
            ActionView::ProbeQuiet(_) => self is Quieting,
            ActionView::Measure { .. } => self is Measuring,
            ActionView::Done { .. } => self is Over,
        }
    }

    /// At most this many events are still waited for.
    pub open spec fn left(self) -> nat {
        match self {
            StageView::Over => 0,
            StageView::RouteFirst { .. } => 3,
            StageView::RouteSecond { .. } => 2,
            StageView::Permitted { .. } => 2,
            StageView::Natural { .. } => 2,
            StageView::InstalledDeny { .. } => 2,
            StageView::Denial { .. } => 2,
            StageView::Resolving => 3,
            StageView::Confining { .. } => 2,
            StageView::Spawning { .. } => 4,
            StageView::Sentinel { .. } => 3,
            StageView::Quieting { .. } => 2,
            _ => 1,
        }
    }
}

// ---------------------------------------------------------------------------
// The moves
// ---------------------------------------------------------------------------

/// The case is over with this outcome.
pub open spec fn over(case: Seq<char>, cx: CxView) -> (StageView, ActionView) {
    (
        StageView::Over,
        ActionView::Done { violations: cx.violations(case), skips: cx.skips },
    )
}

/// A run without an installed verdict that leaves no marker.
pub open spec fn plain_run(drive: DriveView) -> ActionView {
    ActionView::Run { drive, installed: None }
}

/// The first move of a case that may start.
pub open spec fn started(
    case: Seq<char>,
    providers: Executors,
    fixture: ExecFixtureView,
) -> (StageView, ActionView) {
    if case == "sandbox_sees_exact_argv"@ {
        match argv_plan(providers, fixture) {
            PlanView::Done(cx) => over(case, cx),
            PlanView::Ask(drive) => (
                StageView::Handover { root: drive.policy.workspace_root },
                ActionView::RunRecorded(drive),
            ),
        }
    } else if case == "enforced_reason_is_never_blank"@ {
        match reason_plan(providers, fixture) {
            PlanView::Done(cx) => over(case, cx),
            PlanView::Ask((permitted, confined)) => (
                StageView::Permitted { confined },
                ActionView::Consult { consult: permitted, installed: None },
            ),
        }
    } else if case == "refusal_is_never_reported_as_confined"@ {
        match (refusal_plan(providers, fixture), fixture.policy()) {
            (PlanView::Ask(consult), Some(policy)) => (
                StageView::Natural { policy },
                ActionView::Consult { consult, installed: None },
            ),
            (PlanView::Done(cx), _) => over(case, cx),
            _ => over(case, clean()),
        }
    } else if case == "consumer_routes_on_allowed"@ {
        match routing_plan(providers, fixture) {
            PlanView::Done(cx) => over(case, cx),
            PlanView::Ask(drive) => (
                StageView::RouteFirst { drive },
                ActionView::Run { drive, installed: Some(routing_verdict(0)) },
            ),
        }
    } else if case == "injected_deny_reaches_shell"@ {
        match injected_plan(providers, fixture) {
            PlanView::Done(cx) => over(case, cx),
            PlanView::Ask(drive) => (
                StageView::InstalledDeny { drive },
                ActionView::RunJudged { drive, verdict: installed(false, false, Seq::empty()) },
            ),
        }
    } else if case == "denied_command_never_runs"@ {
        match denial_plan(providers, fixture) {
            PlanView::Done(cx) => over(case, cx),
            PlanView::Ask((consult, drive)) => (
                StageView::Denial { drive },
                ActionView::Consult { consult, installed: None },
            ),
        }
    } else if case == "confined_run_is_actually_confined"@ {
        match confined_plan(providers, fixture) {
            PlanView::Done(cx) => over(case, cx),
            PlanView::Ask(root) => (StageView::Resolving, ActionView::Canonicalize(root)),
        }
    } else if case == "cancellation_is_honoured"@ {
        match (cancel_plan(providers, fixture), fixture.root) {
            (PlanView::Ask(spawn), Some(cwd)) => (
                StageView::Spawning { cwd },
                ActionView::SpawnMeasured(spawn),
            ),
            (PlanView::Done(cx), _) => over(case, cx),
            _ => over(case, clean()),
        }
    } else {
        match failing_plan(providers, fixture) {
            PlanView::Done(cx) => over(case, cx),
            PlanView::Ask(drive) => (StageView::Failing, plain_run(drive)),
        }
    }
}

/// The first move of any case name, where `fixture` is what the harness built
/// for it, if it did.
pub open spec fn begun(
    case: Seq<char>,
    providers: Executors,
    fixture: Option<ExecFixtureView>,
) -> (StageView, ActionView) {
    match (gate_failure(case, fixture is Some), fixture) {
        (None, Some(f)) => started(case, providers, f),
        (Some(v), _) => (
            StageView::Over,
            ActionView::Done { violations: seq![v], skips: Seq::empty() },
        ),
        _ => over(case, clean()),
    }
}

/// The next move, once the event came that the stage waits for.
pub open spec fn moved(
    case: Seq<char>,
    providers: Executors,
    fixture: ExecFixtureView,
    stage: StageView,
    event: EventView,
) -> (StageView, ActionView) {
    match (stage, event) {
        (
            StageView::Handover { root },
            EventView::Recorded { ran, consulted, handed },
        ) => over(case, argv_outcome(ran, consulted, handed, root, providers.shell_over)),
        (StageView::Permitted { confined }, EventView::Verdict(permitted)) => (
            StageView::Confined { permitted },
            ActionView::Consult { consult: confined, installed: None },
        ),
        (StageView::Confined { permitted }, EventView::Verdict(confined)) => over(
            case,
            report_outcome(
                report_outcome(clean(), "permitted"@, permitted),
                "confined"@,
                confined,
            ),
        ),
        (StageView::Natural { policy }, EventView::Verdict(natural)) => {
            match after_natural(natural) {
                PlanView::Done(cx) => over(case, cx),
                PlanView::Ask(refusal) => (
                    StageView::InstalledRefusal,
                    ActionView::Consult {
                        consult: ConsultView { argv: sh_argv("true"@), policy },
                        installed: Some(refusal),
                    },
                ),
            }
        },
        (StageView::InstalledRefusal, EventView::Verdict(answer)) => over(
            case,
            injected_refusal_outcome(answer),
        ),
        (StageView::RouteFirst { drive }, EventView::Ran { ran, marker }) => (
            StageView::RouteSecond { drive, first: ran, first_marker: marker },
            ActionView::Run { drive, installed: Some(routing_verdict(1)) },
        ),
        (
            StageView::RouteSecond { drive, first, first_marker },
            EventView::Ran { ran, marker },
        ) => (
            StageView::RouteThird { first, first_marker, second: ran, second_marker: marker },
            ActionView::Run { drive, installed: Some(routing_verdict(2)) },
        ),
        (
            StageView::RouteThird { first, first_marker, second, second_marker },
            EventView::Ran { ran, marker },
        ) => over(
            case,
            failed(routing_findings(first, first_marker, second, second_marker, ran, marker)),
        ),
        (StageView::InstalledDeny { drive }, EventView::Ran { ran, marker }) => (
            StageView::InstalledPermit { denied: ran, marker },
            ActionView::RunJudged { drive, verdict: installed(true, false, Seq::empty()) },
        ),
        (StageView::InstalledPermit { denied, marker }, EventView::Ran { ran, .. }) => over(
            case,
            failed(injected_findings(denied, marker, ran)),
        ),
        (StageView::Denial { drive }, EventView::Verdict(answer)) => {
            match after_denial(answer) {
                PlanView::Done(cx) => over(case, cx),
                PlanView::Ask(verdict) => (
                    StageView::DeniedRun { verdict },
                    ActionView::Run { drive, installed: Some(verdict) },
                ),
            }
        },
        (StageView::DeniedRun { verdict }, EventView::Ran { ran, marker }) => over(
            case,
            failed(denial_findings(verdict, ran, marker)),
        ),
        (StageView::Resolving, EventView::Canonical(r)) => {
            match (after_canonical(providers, r), r) {
                (PlanView::Ask(consult), Ok(root)) => (
                    StageView::Confining { root },
                    ActionView::Consult { consult, installed: None },
                ),
                (PlanView::Done(cx), _) => over(case, cx),
                _ => over(case, clean()),
            }
        },
        (StageView::Confining { root }, EventView::Verdict(verdict)) => {
            match after_confined_verdict(verdict) {
                PlanView::Done(cx) => over(case, cx),
                PlanView::Ask(_) => (
                    StageView::ConfinedRun { root },
                    plain_run(
                        DriveView {
                            command: "pwd; env"@,
                            policy: confined_policy(root),
                            marker: None,
                        },
                    ),
                ),
            }
        },
        (StageView::ConfinedRun { root }, EventView::Ran { ran, .. }) => over(
            case,
            confined_outcome(fixture, root, ran),
        ),
        (StageView::Spawning { cwd }, EventView::Spawned(spawned)) => {
            match after_cancel_spawn(spawned) {
                PlanView::Done(cx) => over(case, cx),
                PlanView::Ask(_) => (
                    StageView::Sentinel { cwd },
                    ActionView::ProbeSentinel(plain_spawn(probe_line(), cwd)),
                ),
            }
        },
        (StageView::Sentinel { cwd }, EventView::Probed(probe)) => match after_sentinel(probe) {
            PlanView::Done(cx) => over(case, cx),
            PlanView::Ask(_) => (
                StageView::Quieting { cwd },
                ActionView::ProbeQuiet(plain_spawn("true"@, cwd)),
            ),
        },
        (StageView::Quieting { cwd }, EventView::Quieted(quiet)) => match after_quiet(quiet) {
            PlanView::Done(cx) => over(case, cx),
            PlanView::Ask(_) => (
                StageView::Measuring,
                ActionView::Measure {
                    probe: plain_spawn(probe_line(), cwd),
                    bound: fixture.cancel_timeout,
                },
            ),
        },
        (StageView::Measuring, EventView::Measured { measured, elapsed }) => over(
            case,
            cancel_outcome(measured, elapsed, fixture.cancel_timeout),
        ),
        (StageView::Failing, EventView::Ran { ran, .. }) => over(case, failing_outcome(ran)),
        _ => over(case, clean()),
    }
}

/// A case that was started.
pub struct ExecCase {
    case: String,
    providers: Executors,
    fixture: ExecFixture,
    stage: Stage,
}

/// What an [`ExecCase`] says.
pub struct ExecCaseView {
    pub case: Seq<char>,
    pub providers: Executors,
    pub fixture: ExecFixtureView,
    pub stage: StageView,
}

impl View for ExecCase {
    type V = ExecCaseView;

    closed spec fn view(&self) -> ExecCaseView {
        ExecCaseView {
            case: self.case@,
            providers: self.providers,
            fixture: self.fixture@,
            stage: self.stage@,
        }
    }
}

fn done(case: &str, cx: Cx) -> (r: (Stage, Action))
    ensures
        (r.0@, r.1@) == over(case@, cx@),
{
    let Cx { failures, skips } = cx;
    let violations = Cx { failures, skips: Vec::new() }.into_violations(case);
    (Stage::Over, Action::Done { violations, skips })
}

fn ask(consult: Consult) -> (r: Action)
    ensures
        r@ == (ActionView::Consult { consult: consult@, installed: None }),
{
    Action::Consult { consult, installed: None }
}

fn run_under(drive: Drive, verdict: Enforced) -> (r: Action)
    ensures
        r@ == (ActionView::Run { drive: drive@, installed: Some(verdict@) }),
{
    Action::Run { drive, installed: Some(verdict) }
}

impl ExecCase {
    /// Start a case over a bundle's legs. `fixture` is what the harness built
    /// for the case, if it did (it need not for a name that is no case).
    pub fn begin(case: &str, providers: Executors, fixture: Option<ExecFixture>) -> (r: (
        Option<ExecCase>,
        Action,
    ))
        requires
            fixture matches Some(f) ==> f@.cancel_timeout.wf() && (case@
                == "cancellation_is_honoured"@ ==> cancellable(providers, f@)),
        ensures
            match fixture {
                Some(f) => begun(case@, providers, Some(f@)).1 == r.1@,
                None => begun(case@, providers, None).1 == r.1@,
            },
            r.0 is None <==> r.1@ is Done,
            r.0 matches Some(running) ==> fixture is Some && running@ == (ExecCaseView {
                case: case@,
                providers,
                fixture: fixture->Some_0@,
                stage: begun(case@, providers, Some(fixture->Some_0@)).0,
            }) && running@.stage !is Over,
    {
        match (gate(case, fixture.is_some()), fixture) {
            (Some(v), _) => {
                let mut out: Vec<Violation> = Vec::new();
                out.push(v);
                let skips: Vec<String> = Vec::new();
                assert(violations_view(out@) =~= seq![v@]);
                assert(texts(skips@) =~= Seq::empty());
                (None, Action::Done { violations: out, skips })
            },
            (None, Some(fixture)) => {
                let (stage, action) = first_move(case, providers, &fixture);
                match stage {
                    Stage::Over => (None, action),
                    stage => (
                        Some(ExecCase { case: owned(case), providers, fixture, stage }),
                        action,
                    ),
                }
            },
            (None, None) => (None, done(case, Cx::new()).1),
        }
    }

    /// Take in what came of the last action, and say what to do next.
    pub fn resume(self, event: Event) -> (r: (Option<ExecCase>, Action))
        requires
            self@.stage.expects(event@),
            self@.fixture.cancel_timeout.wf(),
        ensures
            r.1@ == moved(self@.case, self@.providers, self@.fixture, self@.stage, event@).1,
            r.0 is None <==> r.1@ is Done,
            r.0 matches Some(running) ==> running@ == (ExecCaseView {
                stage: moved(self@.case, self@.providers, self@.fixture, self@.stage, event@).0,
                ..self@
            }) && running@.stage !is Over,
    {
        let ExecCase { case, providers, fixture, stage } = self;
        let (stage, action) = next_move(case.as_str(), providers, &fixture, stage, event);
        match stage {
            Stage::Over => (None, action),
            stage => (Some(ExecCase { case, providers, fixture, stage }), action),
        }
    }
}

fn first_move(case: &str, providers: Executors, fixture: &ExecFixture) -> (r: (Stage, Action))
    requires
        case@ == "cancellation_is_honoured"@ ==> cancellable(providers, fixture@),
    ensures
        (r.0@, r.1@) == started(case@, providers, fixture@),
        r.0 is Over <==> r.1 is Done,
{
    if same(case, "sandbox_sees_exact_argv") {
        match plan_exact_argv(providers, fixture) {
            Plan::Done(cx) => done(case, cx),
            Plan::Ask(drive) => (
                Stage::Handover { root: drive.policy.workspace_root.clone() },
                Action::RunRecorded(drive),
            ),
        }
    } else if same(case, "enforced_reason_is_never_blank") {
        match plan_reasons(providers, fixture) {
            Plan::Done(cx) => done(case, cx),
            Plan::Ask((permitted, confined)) => (
                Stage::Permitted { confined },
                ask(permitted),
            ),
        }
    } else if same(case, "refusal_is_never_reported_as_confined") {
        match (plan_refusal(providers, fixture), fixture.policy()) {
            (Plan::Ask(natural), Some(policy)) => (Stage::Natural { policy }, ask(natural)),
            (Plan::Done(cx), _) => done(case, cx),
            _ => done(case, Cx::new()),
        }
    } else if same(case, "consumer_routes_on_allowed") {
        match plan_routing(providers, fixture) {
            Plan::Done(cx) => done(case, cx),
            Plan::Ask(drive) => {
                let action = run_under(drive.copy(), routing_verdict_for(0));
                (Stage::RouteFirst { drive }, action)
            },
        }
    } else if same(case, "injected_deny_reaches_shell") {
        match plan_injected(providers, fixture) {
            Plan::Done(cx) => done(case, cx),
            Plan::Ask(drive) => {
                let verdict = injected_verdict_for(false);
                let action = Action::RunJudged { drive: drive.copy(), verdict };
                (Stage::InstalledDeny { drive }, action)
            },
        }
    } else if same(case, "denied_command_never_runs") {
        match plan_denial(providers, fixture) {
            Plan::Done(cx) => done(case, cx),
            Plan::Ask((asked, drive)) => (Stage::Denial { drive }, ask(asked)),
        }
    } else if same(case, "confined_run_is_actually_confined") {
        match plan_confined(providers, fixture) {
            Plan::Done(cx) => done(case, cx),
            Plan::Ask(root) => (Stage::Resolving, Action::Canonicalize(root)),
        }
    } else if same(case, "cancellation_is_honoured") {
        match (plan_cancellation(providers, fixture), &fixture.root) {
            (Plan::Ask(spawn), Some(cwd)) => (
                Stage::Spawning { cwd: cwd.clone() },
                Action::SpawnMeasured(spawn),
            ),
            (Plan::Done(cx), _) => done(case, cx),
            _ => done(case, Cx::new()),
        }
    } else {
        match plan_failing(providers, fixture) {
            Plan::Done(cx) => done(case, cx),
            Plan::Ask(drive) => (Stage::Failing, Action::Run { drive, installed: None }),
        }
    }
}

fn next_move(
    case: &str,
    providers: Executors,
    fixture: &ExecFixture,
    stage: Stage,
    event: Event,
) -> (r: (Stage, Action))
    requires
        stage@.expects(event@),
        fixture@.cancel_timeout.wf(),
    ensures
        (r.0@, r.1@) == moved(case@, providers, fixture@, stage@, event@),
        r.0 is Over <==> r.1 is Done,
{
    match (stage, event) {
        (Stage::Handover { root }, Event::Recorded { ran, consulted, handed }) => done(
            case,
            sandbox_sees_exact_argv(
                &ran,
                &consulted,
                &handed,
                root.as_str(),
                providers.shell_over,
            ),
        ),
        (Stage::Permitted { confined }, Event::Verdict(permitted)) => (
            Stage::Confined { permitted },
            ask(confined),
        ),
        (Stage::Confined { permitted }, Event::Verdict(confined)) => done(
            case,
            enforced_reason_is_never_blank(&permitted, &confined),
        ),
        (Stage::Natural { policy }, Event::Verdict(natural)) => {
            match natural_refusal(&natural) {
                Plan::Done(cx) => done(case, cx),
                Plan::Ask(refusal) => (
                    Stage::InstalledRefusal,
                    Action::Consult {
                        consult: Consult { argv: sh("true"), policy },
                        installed: Some(refusal),
                    },
                ),
            }
        },
        (Stage::InstalledRefusal, Event::Verdict(answer)) => done(
            case,
            refusal_is_never_reported_as_confined(&answer),
        ),
        (Stage::RouteFirst { drive }, Event::Ran { ran, marker }) => {
            let action = run_under(drive.copy(), routing_verdict_for(1));
            (Stage::RouteSecond { drive, first: ran, first_marker: marker }, action)
        },
        (Stage::RouteSecond { drive, first, first_marker }, Event::Ran { ran, marker }) => (
            Stage::RouteThird { first, first_marker, second: ran, second_marker: marker },
            run_under(drive, routing_verdict_for(2)),
        ),
        (
            Stage::RouteThird { first, first_marker, second, second_marker },
            Event::Ran { ran, marker },
        ) => done(
            case,
            consumer_routes_on_allowed(
                &first,
                first_marker,
                &second,
                second_marker,
                &ran,
                marker,
            ),
        ),
        (Stage::InstalledDeny { drive }, Event::Ran { ran, marker }) => (
            Stage::InstalledPermit { denied: ran, marker },
            Action::RunJudged { drive, verdict: injected_verdict_for(true) },
        ),
        (Stage::InstalledPermit { denied, marker }, Event::Ran { ran, .. }) => done(
            case,
            injected_deny_reaches_shell(&denied, marker, &ran),
        ),
        (Stage::Denial { drive }, Event::Verdict(answer)) => {
            match denial_verdict(&answer) {
                Plan::Done(cx) => done(case, cx),
                Plan::Ask(verdict) => {
                    let action = run_under(drive, verdict.copy());
                    (Stage::DeniedRun { verdict }, action)
                },
            }
        },
        (Stage::DeniedRun { verdict }, Event::Ran { ran, marker }) => done(
            case,
            denied_command_never_runs(&verdict, &ran, marker),
        ),
        (Stage::Resolving, Event::Canonical(r)) => {
            match (confined_root(providers, &r), r) {
                (Plan::Ask(asked), Ok(root)) => (Stage::Confining { root }, ask(asked)),
                (Plan::Done(cx), _) => done(case, cx),
                _ => done(case, Cx::new()),
            }
        },
        (Stage::Confining { root }, Event::Verdict(verdict)) => {
            match confined_verdict(&verdict) {
                Plan::Done(cx) => done(case, cx),
                Plan::Ask(()) => {
                    let policy = PolicyHome { workspace_root: root.clone(), default_confined: true };
                    let drive = Drive { command: owned(inspect_command()), policy, marker: None };
                    (Stage::ConfinedRun { root }, Action::Run { drive, installed: None })
                },
            }
        },
        (Stage::ConfinedRun { root }, Event::Ran { ran, .. }) => done(
            case,
            confined_run_is_actually_confined(fixture, root.as_str(), &ran),
        ),
        (Stage::Spawning { cwd }, Event::Spawned(spawned)) => {
            match cancellation_spawned(&spawned) {
                Plan::Done(cx) => done(case, cx),
                Plan::Ask(()) => {
                    let action = Action::ProbeSentinel(probe_spawn(cwd.as_str()));
                    (Stage::Sentinel { cwd }, action)
                },
            }
        },
        (Stage::Sentinel { cwd }, Event::Probed(probe)) => match await_sentinel(probe) {
            Plan::Done(cx) => done(case, cx),
            Plan::Ask(()) => {
                let action = Action::ProbeQuiet(quiet_spawn(cwd.as_str()));
                (Stage::Quieting { cwd }, action)
            },
        },
        (Stage::Quieting { cwd }, Event::Quieted(quiet)) => match wait_until_quiet(quiet) {
            Plan::Done(cx) => done(case, cx),
            Plan::Ask(()) => (
                Stage::Measuring,
                Action::Measure {
                    probe: probe_spawn(cwd.as_str()),
                    bound: fixture.cancel_timeout,
                },
            ),
        },
        (Stage::Measuring, Event::Measured { measured, elapsed }) => done(
            case,
            cancellation_is_honoured(&measured, elapsed, fixture.cancel_timeout),
        ),
        (Stage::Failing, Event::Ran { ran, .. }) => done(case, failing_command_is_typed_error(&ran)),
        _ => done(case, Cx::new()),
    }
}

// ---------------------------------------------------------------------------
// Laws
// ---------------------------------------------------------------------------

/// Every action asks for what the case then waits for, and a case is over
/// exactly when it says so.
pub proof fn law_actions_ask_for_what_is_expected(
    case: Seq<char>,
    providers: Executors,
    fixture: ExecFixtureView,
    stage: StageView,
    event: EventView,
)
    ensures
        begun(case, providers, Some(fixture)).0.asked_by(begun(case, providers, Some(fixture)).1),
        stage.expects(event) ==> moved(case, providers, fixture, stage, event).0.asked_by(
            moved(case, providers, fixture, stage, event).1,
        ),
{
}

/// Every answer brings a case nearer its end.
pub proof fn law_every_case_ends(
    case: Seq<char>,
    providers: Executors,
    fixture: ExecFixtureView,
    stage: StageView,
    event: EventView,
)
    requires
        stage.expects(event),
    ensures
        moved(case, providers, fixture, stage, event).0.left() < stage.left(),
{
}

/// Where a case stands after these answers, from where it stood. Answers that
/// come after its end change nothing.
pub open spec fn played(
    case: Seq<char>,
    providers: Executors,
    fixture: ExecFixtureView,
    at: (StageView, ActionView),
    events: Seq<EventView>,
) -> (StageView, ActionView)
    decreases events.len(),
{
    if at.1 is Done || events.len() == 0 {
        at
    } else {
        played(
            case,
            providers,
            fixture,
            moved(case, providers, fixture, at.0, events[0]),
            events.skip(1),
        )
    }
}

/// Whether each answer is one the case waits for when it comes.
pub open spec fn answered(
    case: Seq<char>,
    providers: Executors,
    fixture: ExecFixtureView,
    at: (StageView, ActionView),
    events: Seq<EventView>,
) -> bool
    decreases events.len(),
{
    at.1 is Done || events.len() == 0 || (at.0.expects(events[0]) && answered(
        case,
        providers,
        fixture,
        moved(case, providers, fixture, at.0, events[0]),
        events.skip(1),
    ))
}

proof fn lemma_played(
    case: Seq<char>,
    providers: Executors,
    fixture: ExecFixtureView,
    at: (StageView, ActionView),
    events: Seq<EventView>,
)
    requires
        at.0.asked_by(at.1),
        at.0.left() <= events.len(),
        answered(case, providers, fixture, at, events),
    ensures
        played(case, providers, fixture, at, events).1 is Done,
    decreases events.len(),
{
    if !(at.1 is Done) {
        if at.1 is Consult {
            assert(at.0.expects(EventView::Verdict(VerdictView::Panicked)));
        } else if at.1 is Run {
            assert(at.0.expects(EventView::Ran { ran: RanView::Panicked, marker: false }));
        }
        assert(at.0 !is Over);
        let event = events[0];
        law_actions_ask_for_what_is_expected(case, providers, fixture, at.0, event);
        law_every_case_ends(case, providers, fixture, at.0, event);
        lemma_played(
            case,
            providers,
            fixture,
            moved(case, providers, fixture, at.0, event),
            events.skip(1),
        );
    }
}

/// No case takes more than four answers, whatever they are.
pub proof fn law_four_answers_settle_every_case(
    case: Seq<char>,
    providers: Executors,
    fixture: ExecFixtureView,
    events: Seq<EventView>,
)
    requires
        events.len() >= 4,
        answered(case, providers, fixture, begun(case, providers, Some(fixture)), events),
    ensures
        played(case, providers, fixture, begun(case, providers, Some(fixture)), events).1 is Done,
{
    law_actions_ask_for_what_is_expected(
        case,
        providers,
        fixture,
        StageView::Over,
        EventView::Spawned(Spawned::Accepted),
    );
    lemma_played(case, providers, fixture, begun(case, providers, Some(fixture)), events);
}

/// The routing case judges its three runs, each under the verdict installed for
/// it, and nothing else.
pub proof fn law_routing_judges_its_three_runs(
    providers: Executors,
    fixture: ExecFixtureView,
    first: (RanView, bool),
    second: (RanView, bool),
    third: (RanView, bool),
)
    requires
        routing_plan(providers, fixture) is Ask,
    ensures
        ({
            let case = "consumer_routes_on_allowed"@;
            let events = seq![
                EventView::Ran { ran: first.0, marker: first.1 },
                EventView::Ran { ran: second.0, marker: second.1 },
                EventView::Ran { ran: third.0, marker: third.1 },
            ];
            played(case, providers, fixture, begun(case, providers, Some(fixture)), events) == over(
                case,
                failed(
                    routing_findings(first.0, first.1, second.0, second.1, third.0, third.1),
                ),
            )
        }),
{
    let case = "consumer_routes_on_allowed"@;
    let events = seq![
        EventView::Ran { ran: first.0, marker: first.1 },
        EventView::Ran { ran: second.0, marker: second.1 },
        EventView::Ran { ran: third.0, marker: third.1 },
    ];
    assert(EXECUTOR_CONFORMANCE_CASES@[3]@ == case);
    lemma_names_differ();
    reveal_with_fuel(played, 4);
    assert(events.skip(1).skip(1).skip(1) =~= Seq::empty());
}

/// A command that was accepted, with probes that settled, is judged by how it
/// ended and how long that took.
pub proof fn law_cancellation_judges_the_measured_run(
    providers: Executors,
    fixture: ExecFixtureView,
    measured: Measured,
    elapsed: Span,
)
    requires
        cancel_plan(providers, fixture) is Ask,
    ensures
        ({
            let case = "cancellation_is_honoured"@;
            let events = seq![
                EventView::Spawned(Spawned::Accepted),
                EventView::Probed(Probe::Running),
                EventView::Quieted(Quiet::Quiet),
                EventView::Measured { measured, elapsed },
            ];
            played(case, providers, fixture, begun(case, providers, Some(fixture)), events) == over(
                case,
                cancel_outcome(measured, elapsed, fixture.cancel_timeout),
            )
        }),
{
    let case = "cancellation_is_honoured"@;
    let events = seq![
        EventView::Spawned(Spawned::Accepted),
        EventView::Probed(Probe::Running),
        EventView::Quieted(Quiet::Quiet),
        EventView::Measured { measured, elapsed },
    ];
    assert(EXECUTOR_CONFORMANCE_CASES@[7]@ == case);
    lemma_names_differ();
    reveal_with_fuel(played, 5);
    assert(events.skip(1).skip(1).skip(1).skip(1) =~= Seq::empty());
}

/// The names of the cases that come before the routing and the cancellation case
/// are others.
proof fn lemma_names_differ()
    ensures
        "consumer_routes_on_allowed"@ != "sandbox_sees_exact_argv"@,
        "consumer_routes_on_allowed"@ != "enforced_reason_is_never_blank"@,
        "consumer_routes_on_allowed"@ != "refusal_is_never_reported_as_confined"@,
        "cancellation_is_honoured"@ != "sandbox_sees_exact_argv"@,
        "cancellation_is_honoured"@ != "enforced_reason_is_never_blank"@,
        "cancellation_is_honoured"@ != "refusal_is_never_reported_as_confined"@,
        "cancellation_is_honoured"@ != "consumer_routes_on_allowed"@,
        "cancellation_is_honoured"@ != "injected_deny_reaches_shell"@,
        "cancellation_is_honoured"@ != "denied_command_never_runs"@,
        "cancellation_is_honoured"@ != "confined_run_is_actually_confined"@,
{
    reveal_strlit("sandbox_sees_exact_argv");
    reveal_strlit("enforced_reason_is_never_blank");
    reveal_strlit("refusal_is_never_reported_as_confined");
    reveal_strlit("consumer_routes_on_allowed");
    reveal_strlit("injected_deny_reaches_shell");
    reveal_strlit("denied_command_never_runs");
    reveal_strlit("confined_run_is_actually_confined");
    reveal_strlit("cancellation_is_honoured");
    assert("consumer_routes_on_allowed"@[0] == 'c');
    assert("cancellation_is_honoured"@[0] == 'c' && "cancellation_is_honoured"@[1] == 'a');
    assert("sandbox_sees_exact_argv"@[0] == 's');
    assert("enforced_reason_is_never_blank"@[0] == 'e');
    assert("refusal_is_never_reported_as_confined"@[0] == 'r');
    assert("injected_deny_reaches_shell"@[0] == 'i');
    assert("denied_command_never_runs"@[0] == 'd');
    assert("consumer_routes_on_allowed"@[1] == 'o');
    assert("confined_run_is_actually_confined"@[1] == 'o');
}

/// Nothing is cancelled and measured before the command was accepted, a probe
/// announced itself, and a trivial probe came back; and then the judgement is of
/// that measurement alone.
pub proof fn law_cancellation_is_measured_last(
    case: Seq<char>,
    providers: Executors,
    fixture: ExecFixtureView,
    stage: StageView,
    event: EventView,
)
    requires
        stage.expects(event),
    ensures
        moved(case, providers, fixture, stage, event).1 is Measure ==> stage is Quieting && event
            == EventView::Quieted(Quiet::Quiet),
        moved(case, providers, fixture, stage, event).1 is ProbeQuiet ==> stage is Sentinel && event
            == EventView::Probed(Probe::Running),
        moved(case, providers, fixture, stage, event).1 is ProbeSentinel ==> stage is Spawning
            && event == EventView::Spawned(Spawned::Accepted),
        event matches EventView::Measured { measured, elapsed } ==> moved(
            case,
            providers,
            fixture,
            stage,
            event,
        ) == over(case, cancel_outcome(measured, elapsed, fixture.cancel_timeout)),
{
}

/// A case that is owed no fixture is over before anything is asked, and finds
/// nothing: every case over a bundle with no legs, and every case without a
/// scratch root.
pub proof fn law_nothing_is_asked_of_nothing(
    case: Seq<char>,
    providers: Executors,
    fixture: ExecFixtureView,
)
    requires
        is_case(case),
        fixture.root is None || providers == (Executors {
            shell: false,
            sandbox: false,
            subprocess: false,
            shell_over: providers.shell_over,
        }),
    ensures
        begun(case, providers, Some(fixture)).0 is Over,
        begun(case, providers, Some(fixture)).1 matches ActionView::Done { violations, skips }
            && violations.len() == 0 && skips.len() > 0,
{
}

/// A name that is no case is one violation under that name, whatever the bundle.
pub proof fn law_an_unknown_case_is_one_violation(
    case: Seq<char>,
    providers: Executors,
    fixture: Option<ExecFixtureView>,
)
    requires
        !is_case(case),
    ensures
        begun(case, providers, fixture) == (
            StageView::Over,
            ActionView::Done {
                violations: seq![ViolationView { case, detail: "unknown conformance case"@ }],
                skips: Seq::empty(),
            },
        ),
{
}

/// A denied command is only ever run with its denial installed.
pub proof fn law_denials_are_installed(
    case: Seq<char>,
    providers: Executors,
    fixture: ExecFixtureView,
    drive: DriveView,
    answer: VerdictView,
)
    ensures
        moved(
            case,
            providers,
            fixture,
            StageView::Denial { drive },
            EventView::Verdict(answer),
        ).1 matches ActionView::Run { drive: run, installed: Some(verdict) } ==> run == drive
            && answer == VerdictView::Decided(verdict) && !verdict.allowed,
{
}

} // verus!
