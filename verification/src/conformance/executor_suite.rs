//! The execution-world conformance suite.
//!
//! The execution world is three legs that only mean something together: a
//! shell turns a command line into spawn coordinates, a sandbox reports what
//! it enforces for those coordinates, and a subprocess spawns them. Each case
//! here is a plan of what to drive the legs with, and the verdict on what was
//! observed. The legs themselves are driven by the caller, which contains
//! panics, touches the scratch root and keeps the clock.
//!
//! A case that cannot build its fixture through the provider's own surface
//! owes nothing: it skips.

use vstd::prelude::*;

use crate::conformance::report::{
    clean, failed, finding, skipped, Cx, CxView, Violation, ViolationView,
};
use crate::seam::error::{ErrorCode, SeamError, SeamErrorView};
use crate::seam::exec::{Enforced, EnforcedView, PolicyHome, PolicyHomeView, Spawn, SpawnView};
use crate::text::{
    blank, cat, cat3, cat4, cat5, cat7, chars_of, contains, debug_text, debug_text_opt, debug_texts,
    decimal, decimal_text, is_blank, occurs, owned, quoted, quoted_list, quoted_opt, same, text_of,
    text_opt, texts, trim, trimmed,
};

verus! {

/// Every execution-world conformance case, in suite order.
pub const EXECUTOR_CONFORMANCE_CASES: [&'static str; 9] = [
    "sandbox_sees_exact_argv",
    "enforced_reason_is_never_blank",
    "refusal_is_never_reported_as_confined",
    "consumer_routes_on_allowed",
    "injected_deny_reaches_shell",
    "denied_command_never_runs",
    "confined_run_is_actually_confined",
    "cancellation_is_honoured",
    "failing_command_is_typed_error",
];

/// The credential-shaped variable a confined case places in its own child; a
/// conforming scrub must drop a name like this.
pub const PROOF_ENV_NAME: &'static str = "HARNLESS_CONFORMANCE_FAKE_TOKEN";

/// The value paired with [`PROOF_ENV_NAME`].
pub const PROOF_ENV_VALUE: &'static str = "scrub-me";

/// A non-credential control variable: the scrub must leave it alone.
pub const CONTROL_ENV_NAME: &'static str = "HARNLESS_CONFORMANCE_SAFE_VAR";

/// The value paired with [`CONTROL_ENV_NAME`].
pub const CONTROL_ENV_VALUE: &'static str = "keepme";

/// A command line that certainly fails and prints a marker on the way out.
pub const FAILING_COMMAND: &'static str = "echo failing-on-purpose; exit 7";

/// A command line with quoting, expansion, globs, unicode and backslashes:
/// everything an argv rewrite would mangle.
pub const EXACT_COMMAND: &'static str =
    "echo 'a \"b\" $HOME * ? \u{4e2d}\u{6587} \\ back' > /dev/null";

/// The line the cancellation fixture prints before the part it expects to be
/// cancelled.
pub const CANCEL_SENTINEL: &'static str = "harnless-conformance-running";

/// How long the sentinel probe's command runs if nothing stops it, in seconds.
pub const PROBE_LIFETIME_SECS: u64 = 120;

/// How long the suite waits for a probe to announce itself, in seconds.
pub const PROBE_BOUND_SECS: u64 = 5;

/// The reason every injected verdict carries.
pub const INJECTED_REASON: &'static str = "conformance suite injected this verdict";

/// The substring a sandbox may use to recognise an injected verdict.
pub const INJECTED_MARKER: &'static str = "conformance suite injected";

// ---------------------------------------------------------------------------
// The bundle and its fixtures
// ---------------------------------------------------------------------------

/// Which legs a provider supplied, and whether its shell can be rebuilt over
/// legs the suite supplies.
#[derive(Debug, Clone, Copy, PartialEq, Eq, Structural)]
pub struct Executors {
    pub shell: bool,
    pub sandbox: bool,
    pub subprocess: bool,
    pub shell_over: bool,
}

impl Executors {
    /// A bundle with no legs set.
    pub fn new() -> (r: Executors)
        ensures
            r == (Executors { shell: false, sandbox: false, subprocess: false, shell_over: false }),
    {
        Executors { shell: false, sandbox: false, subprocess: false, shell_over: false }
    }

    /// Declare that the shell can be rebuilt over legs the suite supplies.
    #[must_use]
    pub fn shell_over(self) -> (r: Executors)
        ensures
            r == (Executors { shell_over: true, ..self }),
    {
        Executors { shell_over: true, ..self }
    }

    /// There is a shell leg.
    #[must_use]
    pub fn shell(self) -> (r: Executors)
        ensures
            r == (Executors { shell: true, ..self }),
    {
        Executors { shell: true, ..self }
    }

    /// There is a sandbox leg.
    #[must_use]
    pub fn sandbox(self) -> (r: Executors)
        ensures
            r == (Executors { sandbox: true, ..self }),
    {
        Executors { sandbox: true, ..self }
    }

    /// There is a subprocess leg.
    #[must_use]
    pub fn subprocess(self) -> (r: Executors)
        ensures
            r == (Executors { subprocess: true, ..self }),
    {
        Executors { subprocess: true, ..self }
    }
}

/// A length of time.
#[derive(Debug, Clone, Copy, PartialEq, Eq, Structural)]
pub struct Span {
    pub secs: u64,
    /// Less than a billion.
    pub nanos: u32,
}

impl Span {
    /// The nanoseconds do not hold whole seconds.
    pub open spec fn wf(self) -> bool {
        self.nanos < 1_000_000_000
    }

    /// The length in nanoseconds.
    pub open spec fn nanoseconds(self) -> nat {
        (self.secs * 1_000_000_000 + self.nanos) as nat
    }

    /// Whole seconds.
    pub fn from_secs(secs: u64) -> (r: Span)
        ensures
            r == (Span { secs, nanos: 0 }),
            r.wf(),
    {
        Span { secs, nanos: 0 }
    }

    /// Whether this is longer than `other`.
    pub fn longer_than(self, other: Span) -> (r: bool)
        requires
            self.wf(),
            other.wf(),
        ensures
            r == (self.nanoseconds() > other.nanoseconds()),
    {
        self.secs > other.secs || (self.secs == other.secs && self.nanos > other.nanos)
    }
}

/// The `{:?}` rendering of a length of time.
pub uninterp spec fn duration_text(secs: u64, nanos: u32) -> Seq<char>;

/// The `Debug` impl of `std::time::Duration` (through `format!`): a function of
/// the length. How many digits are shown, and in which unit, is left to the
/// standard library.
#[verifier::external_body]
pub(crate) fn shown_span(span: Span) -> (r: String)
    requires
        span.wf(),
    ensures
        r@ == duration_text(span.secs, span.nanos),
{
    format!("{:?}", std::time::Duration::new(span.secs, span.nanos))
}

/// The fixtures a provider's harness provisions for one case.
pub struct ExecFixture {
    /// The scratch workspace root the case runs under, when there is one.
    pub root: Option<String>,
    /// Whether the case's policy asks for confinement.
    pub confined: bool,
    /// A credential-shaped variable the harness arranges for the confined
    /// child to inherit, so the scrub's effect is observable.
    pub proof_var: Option<(String, String)>,
    /// A non-credential variable the scrub must leave alone.
    pub control_var: Option<(String, String)>,
    /// Whether the harness's spawner actually places the proof variable in a
    /// confined child's environment.
    pub proof_vars_applied: bool,
    /// How long the cancellation case waits for a cancelled process to die.
    pub cancel_timeout: Span,
}

/// The values of an optional name and value pair.
pub open spec fn pair_opt(v: Option<(String, String)>) -> Option<(Seq<char>, Seq<char>)> {
    match v {
        Some(p) => Some((p.0@, p.1@)),
        None => None,
    }
}

/// What an [`ExecFixture`] says.
pub struct ExecFixtureView {
    pub root: Option<Seq<char>>,
    pub confined: bool,
    pub proof_var: Option<(Seq<char>, Seq<char>)>,
    pub control_var: Option<(Seq<char>, Seq<char>)>,
    pub proof_vars_applied: bool,
    pub cancel_timeout: Span,
}

impl View for ExecFixture {
    type V = ExecFixtureView;

    open spec fn view(&self) -> ExecFixtureView {
        ExecFixtureView {
            root: text_opt(self.root),
            confined: self.confined,
            proof_var: pair_opt(self.proof_var),
            control_var: pair_opt(self.control_var),
            proof_vars_applied: self.proof_vars_applied,
            cancel_timeout: self.cancel_timeout,
        }
    }
}

impl ExecFixtureView {
    /// The policy home this fixture describes.
    pub open spec fn policy(self) -> Option<PolicyHomeView> {
        match self.root {
            Some(root) => Some(
                PolicyHomeView { workspace_root: root, default_confined: self.confined },
            ),
            None => None,
        }
    }
}

impl ExecFixture {
    /// A fixture with no root and no confinement; the harness fills in what
    /// its provider supports.
    pub fn new() -> (r: ExecFixture)
        ensures
            r@ == (ExecFixtureView {
                root: None,
                confined: false,
                proof_var: None,
                control_var: None,
                proof_vars_applied: false,
                cancel_timeout: Span { secs: 10, nanos: 0 },
            }),
    {
        ExecFixture {
            root: None,
            confined: false,
            proof_var: None,
            control_var: None,
            proof_vars_applied: false,
            cancel_timeout: Span::from_secs(10),
        }
    }

    /// Set the scratch workspace root.
    #[must_use]
    pub fn root(self, root: &str) -> (r: ExecFixture)
        ensures
            r@ == (ExecFixtureView { root: Some(root@), ..self@ }),
    {
        let mut fixture = self;
        fixture.root = Some(owned(root));
        fixture
    }

    /// Ask for a confined policy.
    #[must_use]
    pub fn confined(self, confined: bool) -> (r: ExecFixture)
        ensures
            r@ == (ExecFixtureView { confined, ..self@ }),
    {
        let mut fixture = self;
        fixture.confined = confined;
        fixture
    }

    /// Declare the injected proof and control variables.
    #[must_use]
    pub fn proof_vars(self, proof: &str, control: &str) -> (r: ExecFixture)
        ensures
            r@ == (ExecFixtureView {
                proof_var: Some((proof@, PROOF_ENV_VALUE@)),
                control_var: Some((control@, CONTROL_ENV_VALUE@)),
                ..self@
            }),
    {
        let mut fixture = self;
        fixture.proof_var = Some((owned(proof), owned(PROOF_ENV_VALUE)));
        fixture.control_var = Some((owned(control), owned(CONTROL_ENV_VALUE)));
        fixture
    }

    /// Declare that the harness's spawner really places the proof and control
    /// variables in a confined child's environment.
    #[must_use]
    pub fn with_proof_vars_applied(self) -> (r: ExecFixture)
        ensures
            r@ == (ExecFixtureView { proof_vars_applied: self@.proof_var is Some, ..self@ }),
    {
        let mut fixture = self;
        fixture.proof_vars_applied = fixture.proof_var.is_some();
        fixture
    }

    /// Override the cancellation bound.
    #[must_use]
    pub fn cancel_timeout(self, cancel_timeout: Span) -> (r: ExecFixture)
        ensures
            r@ == (ExecFixtureView { cancel_timeout, ..self@ }),
    {
        let mut fixture = self;
        fixture.cancel_timeout = cancel_timeout;
        fixture
    }

    /// The policy home this fixture describes: the scratch root, and the
    /// requested mode.
    pub fn policy(&self) -> (r: Option<PolicyHome>)
        ensures
            match (r, self@.policy()) {
                (Some(p), Some(v)) => p@ == v,
                (None, None) => true,
                _ => false,
            },
    {
        match &self.root {
            Some(root) => Some(
                PolicyHome { workspace_root: root.clone(), default_confined: self.confined },
            ),
            None => None,
        }
    }
}

/// An append-only recorder.
pub struct Recorder<T> {
    items: Vec<T>,
}

impl<T> View for Recorder<T> {
    type V = Seq<T>;

    closed spec fn view(&self) -> Seq<T> {
        self.items@
    }
}

impl<T> Recorder<T> {
    /// Nothing recorded yet.
    pub fn new() -> (r: Recorder<T>)
        ensures
            r@ == Seq::<T>::empty(),
    {
        Recorder { items: Vec::new() }
    }

    /// Record one item.
    pub fn push(&mut self, item: T)
        ensures
            final(self)@ == old(self)@.push(item),
    {
        self.items.push(item);
    }

    /// The most recently recorded item.
    pub fn last(&self) -> (r: Option<&T>)
        ensures
            match r {
                Some(item) => latest(self@) == Some(*item),
                None => latest(self@) is None,
            },
    {
        if self.items.len() == 0 {
            None
        } else {
            Some(&self.items[self.items.len() - 1])
        }
    }
}

/// The most recent of the items, where there is one.
pub open spec fn latest<T>(items: Seq<T>) -> Option<T> {
    if items.len() == 0 {
        None
    } else {
        Some(items.last())
    }
}

/// What a recorder holds once `items` were recorded, one by one.
pub open spec fn recorded<T>(before: Seq<T>, items: Seq<T>) -> Seq<T>
    decreases items.len(),
{
    if items.len() == 0 {
        before
    } else {
        recorded(before, items.drop_last()).push(items.last())
    }
}

/// A recorder keeps what was recorded, in order, and its last item is the latest
/// that anyone recorded, whatever it held before.
pub proof fn law_the_last_item_is_the_latest_recorded<T>(before: Seq<T>, items: Seq<T>)
    ensures
        recorded(before, items) == before + items,
        latest(recorded(before, items)) == if items.len() > 0 {
            latest(items)
        } else {
            latest(before)
        },
    decreases items.len(),
{
    if items.len() > 0 {
        law_the_last_item_is_the_latest_recorded(before, items.drop_last());
        assert((before + items.drop_last()).push(items.last()) =~= before + items);
    } else {
        assert(before + items =~= before);
    }
}

// ---------------------------------------------------------------------------
// What is observed
// ---------------------------------------------------------------------------

/// The outcome of running a command through the shell.
pub enum Ran {
    /// The shell returned output.
    Output(String),
    /// The shell returned a typed error.
    Failed(ErrorCode, String),
    /// The provider panicked.
    Panicked,
}

/// What a [`Ran`] says.
pub enum RanView {
    Output(Seq<char>),
    Failed(ErrorCode, Seq<char>),
    Panicked,
}

impl View for Ran {
    type V = RanView;

    open spec fn view(&self) -> RanView {
        match *self {
            Ran::Output(out) => RanView::Output(out@),
            Ran::Failed(code, message) => RanView::Failed(code, message@),
            Ran::Panicked => RanView::Panicked,
        }
    }
}

impl RanView {
    /// The outcome in words a violation can quote.
    pub open spec fn described(self) -> Seq<char> {
        match self {
            RanView::Output(out) => "returned Ok("@ + debug_text(out) + ")"@,
            RanView::Failed(code, message) => "returned `"@ + code.spelling() + "` ("@ + message + ")"@,
            RanView::Panicked => "panicked"@,
        }
    }
}

impl Ran {
    /// The outcome in words a violation can quote.
    pub fn described(&self) -> (r: String)
        ensures
            r@ == self@.described(),
    {
        match self {
            Ran::Output(out) => cat3("returned Ok(", quoted(out.as_str()).as_str(), ")"),
            Ran::Failed(code, message) => cat5(
                "returned `",
                code.as_str(),
                "` (",
                message.as_str(),
                ")",
            ),
            Ran::Panicked => owned("panicked"),
        }
    }

    /// The outcome of a shell call that did not panic.
    pub fn of(r: Result<String, SeamError>) -> (ran: Ran)
        ensures
            ran@ == (match r {
                Ok(out) => RanView::Output(out@),
                Err(e) => RanView::Failed(e.code, e.message@),
            }),
    {
        match r {
            Ok(out) => Ran::Output(out),
            Err(e) => Ran::Failed(e.code, e.message),
        }
    }
}

/// A sandbox's answer to one consultation.
pub enum Verdict {
    /// The sandbox reported.
    Decided(Enforced),
    /// The sandbox returned an error instead.
    Failed(SeamError),
    /// The sandbox panicked.
    Panicked,
}

/// What a [`Verdict`] says.
pub enum VerdictView {
    Decided(EnforcedView),
    Failed(SeamErrorView),
    Panicked,
}

impl View for Verdict {
    type V = VerdictView;

    open spec fn view(&self) -> VerdictView {
        match *self {
            Verdict::Decided(e) => VerdictView::Decided(e@),
            Verdict::Failed(e) => VerdictView::Failed(e@),
            Verdict::Panicked => VerdictView::Panicked,
        }
    }
}

/// A consultation of the sandbox.
pub struct Consult {
    pub argv: Vec<String>,
    pub policy: PolicyHome,
}

/// What a [`Consult`] says.
pub struct ConsultView {
    pub argv: Seq<Seq<char>>,
    pub policy: PolicyHomeView,
}

impl View for Consult {
    type V = ConsultView;

    open spec fn view(&self) -> ConsultView {
        ConsultView { argv: texts(self.argv@), policy: self.policy@ }
    }
}

/// A command to run, the policy to run it under, and the marker file it
/// leaves behind when it really ran.
pub struct Drive {
    pub command: String,
    pub policy: PolicyHome,
    pub marker: Option<String>,
}

/// What a [`Drive`] says.
pub struct DriveView {
    pub command: Seq<char>,
    pub policy: PolicyHomeView,
    pub marker: Option<Seq<char>>,
}

impl View for Drive {
    type V = DriveView;

    open spec fn view(&self) -> DriveView {
        DriveView {
            command: self.command@,
            policy: self.policy@,
            marker: text_opt(self.marker),
        }
    }
}

impl Drive {
    /// The same command again.
    pub fn copy(&self) -> (r: Drive)
        ensures
            r@ == self@,
    {
        Drive {
            command: self.command.clone(),
            policy: PolicyHome {
                workspace_root: self.policy.workspace_root.clone(),
                default_confined: self.policy.default_confined,
            },
            marker: match &self.marker {
                Some(path) => Some(path.clone()),
                None => None,
            },
        }
    }
}

/// The next move of a case: something to ask of the legs, or its outcome.
pub enum Plan<T> {
    Ask(T),
    Done(Cx),
}

/// What a [`Plan`] says.
pub enum PlanView<V> {
    Ask(V),
    Done(CxView),
}

impl<T: View> View for Plan<T> {
    type V = PlanView<T::V>;

    open spec fn view(&self) -> PlanView<T::V> {
        match *self {
            Plan::Ask(t) => PlanView::Ask(t@),
            Plan::Done(cx) => PlanView::Done(cx@),
        }
    }
}

fn skip_cx(why: &str) -> (r: Cx)
    ensures
        r@ == skipped(why@),
{
    let mut cx = Cx::new();
    cx.skip(owned(why));
    assert(cx@ =~= skipped(why@));
    cx
}

fn skip_text(why: String) -> (r: Cx)
    ensures
        r@ == skipped(why@),
{
    let mut cx = Cx::new();
    cx.skip(why);
    assert(cx@ =~= skipped(why@));
    cx
}

fn fail_cx(detail: &str) -> (r: Cx)
    ensures
        r@ == failed(seq![detail@]),
{
    let mut cx = Cx::new();
    cx.fail_str(detail);
    assert(cx@ =~= failed(seq![detail@]));
    cx
}

fn fail_text(detail: String) -> (r: Cx)
    ensures
        r@ == failed(seq![detail@]),
{
    let mut cx = Cx::new();
    cx.fail(detail);
    assert(cx@ =~= failed(seq![detail@]));
    cx
}

/// The skip of a case whose fixture has no scratch root.
pub open spec fn no_root() -> CxView {
    skipped("harness provisioned no scratch workspace root"@)
}

/// The skip of a case that needs a leg the provider lacks.
pub open spec fn no_leg(what: Seq<char>) -> CxView {
    skipped("provider supplied no "@ + what + " leg"@)
}

fn no_root_cx() -> (r: Cx)
    ensures
        r@ == no_root(),
{
    skip_cx("harness provisioned no scratch workspace root")
}

fn no_leg_cx(what: &str) -> (r: Cx)
    ensures
        r@ == no_leg(what@),
{
    skip_text(cat3("provider supplied no ", what, " leg"))
}

/// The entry `name` of the directory `root`.
pub open spec fn under(root: Seq<char>, name: Seq<char>) -> Seq<char> {
    if root.len() > 0 && root.last() != '/' {
        root + "/"@ + name
    } else {
        root + name
    }
}

fn join_path(root: &str, name: &str) -> (r: String)
    ensures
        r@ == under(root@, name@),
{
    let cs = chars_of(root);
    if cs.len() > 0 && cs[cs.len() - 1] != '/' {
        cat3(root, "/", name)
    } else {
        cat(root, name)
    }
}

/// The marker a command of this case leaves under `root` when it runs.
pub open spec fn marker_path(root: Seq<char>, case: Seq<char>) -> Seq<char> {
    under(root, "harnless-conformance-"@ + case + "-must-not-exist"@)
}

/// The marker a denied command must not leave behind.
pub fn marker_in(root: &str, case: &str) -> (r: String)
    ensures
        r@ == marker_path(root@, case@),
{
    join_path(root, cat3("harnless-conformance-", case, "-must-not-exist").as_str())
}

/// A command line that writes a marker file.
pub open spec fn touch_line(path: Seq<char>) -> Seq<char> {
    "touch '"@ + path + "'"@
}

/// A command line that writes a marker file, for "did it actually run?"
/// assertions.
pub fn touch_command(path: &str) -> (r: String)
    ensures
        r@ == touch_line(path@),
{
    cat3("touch '", path, "'")
}

/// A command line that reports its own working directory and environment.
pub fn inspect_command() -> (r: &'static str)
    ensures
        r@ == "pwd; env"@,
{
    "pwd; env"
}

/// The shell's argv for a command line.
pub open spec fn sh_argv(command: Seq<char>) -> Seq<Seq<char>> {
    seq!["/bin/sh"@, "-c"@, command]
}

pub(crate) fn sh(command: &str) -> (r: Vec<String>)
    ensures
        texts(r@) == sh_argv(command@),
{
    let mut out: Vec<String> = Vec::new();
    out.push(owned("/bin/sh"));
    out.push(owned("-c"));
    out.push(owned(command));
    assert(texts(out@) =~= sh_argv(command@));
    out
}

/// A root that is not there.
pub open spec fn vanished(root: Seq<char>) -> PolicyHomeView {
    PolicyHomeView {
        workspace_root: under(root, "harnless-conformance-vanished-root"@),
        default_confined: true,
    }
}

fn vanished_policy(root: &str) -> (r: PolicyHome)
    ensures
        r@ == vanished(root@),
{
    PolicyHome {
        workspace_root: join_path(root, "harnless-conformance-vanished-root"),
        default_confined: true,
    }
}

/// A verdict the suite installs.
pub open spec fn installed(allowed: bool, confined: bool, mode: Seq<char>) -> EnforcedView {
    EnforcedView { confined, allowed, mode, reason: INJECTED_REASON@ }
}

/// A verdict the suite installs for the shell's sandbox to hand back. Its
/// reason always carries [`INJECTED_MARKER`].
pub fn inject(allowed: bool, confined: bool, mode: &str) -> (r: Enforced)
    ensures
        r@ == installed(allowed, confined, mode@),
{
    Enforced { confined, allowed, mode: owned(mode), reason: owned(INJECTED_REASON) }
}

/// Every verdict the suite installs can be recognised by its reason.
pub proof fn law_injected_verdicts_are_recognisable(allowed: bool, confined: bool, mode: Seq<char>)
    ensures
        occurs(installed(allowed, confined, mode).reason, INJECTED_MARKER@),
{
    reveal_strlit("conformance suite injected this verdict");
    reveal_strlit("conformance suite injected");
    assert(INJECTED_REASON@.subrange(0, INJECTED_MARKER@.len() as int) =~= INJECTED_MARKER@);
    assert(crate::text::occurs_at(INJECTED_REASON@, INJECTED_MARKER@, 0));
}

// ---------------------------------------------------------------------------
// Entering a case
// ---------------------------------------------------------------------------

/// Whether `case` names a case of the suite.
pub open spec fn is_case(case: Seq<char>) -> bool {
    exists|i: int| 0 <= i < 9 && (#[trigger] EXECUTOR_CONFORMANCE_CASES@[i])@ == case
}

/// What stops a case before it starts: a name that is no case, or a fixture
/// factory that panicked.
pub open spec fn gate_failure(case: Seq<char>, fixture_built: bool) -> Option<ViolationView> {
    if !is_case(case) {
        Some(ViolationView { case, detail: "unknown conformance case"@ })
    } else if !fixture_built {
        Some(
            ViolationView {
                case,
                detail: "the fixture factory panicked while building this case's fixtures"@,
            },
        )
    } else {
        None
    }
}

/// Whether the case may start. `fixture_built` tells whether the harness's
/// factory returned (it is not asked for a name that is no case).
pub fn gate(case: &str, fixture_built: bool) -> (r: Option<Violation>)
    ensures
        match r {
            Some(v) => gate_failure(case@, fixture_built) == Some(v@),
            None => gate_failure(case@, fixture_built) is None,
        },
{
    let mut known = false;
    for i in 0..9usize
        invariant
            known == exists|k: int|
                0 <= k < i && (#[trigger] EXECUTOR_CONFORMANCE_CASES@[k])@ == case@,
    {
        if same(EXECUTOR_CONFORMANCE_CASES[i], case) {
            assert(EXECUTOR_CONFORMANCE_CASES@[i as int]@ == case@);
            known = true;
        }
    }
    if !known {
        Some(Violation::new(case, "unknown conformance case"))
    } else if !fixture_built {
        Some(
            Violation::new(
                case,
                "the fixture factory panicked while building this case's fixtures",
            ),
        )
    } else {
        None
    }
}

// ---------------------------------------------------------------------------
// The argv handover
// ---------------------------------------------------------------------------

/// The plan: run the awkward command through a shell rebuilt over recording
/// legs (or the shipped shell, when it cannot be rebuilt).
pub open spec fn argv_plan(providers: Executors, fixture: ExecFixtureView) -> PlanView<DriveView> {
    match fixture.policy() {
        None => PlanView::Done(no_root()),
        Some(policy) => if !providers.shell {
            PlanView::Done(no_leg("shell"@))
        } else if !providers.sandbox {
            PlanView::Done(no_leg("sandbox"@))
        } else if !providers.subprocess {
            PlanView::Done(no_leg("subprocess"@))
        } else {
            PlanView::Ask(DriveView { command: EXACT_COMMAND@, policy, marker: None })
        },
    }
}

/// Plan the argv handover.
pub fn plan_exact_argv(providers: Executors, fixture: &ExecFixture) -> (r: Plan<Drive>)
    ensures
        r@ == argv_plan(providers, fixture@),
{
    match fixture.policy() {
        None => Plan::Done(no_root_cx()),
        Some(policy) => {
            if !providers.shell {
                Plan::Done(no_leg_cx("shell"))
            } else if !providers.sandbox {
                Plan::Done(no_leg_cx("sandbox"))
            } else if !providers.subprocess {
                Plan::Done(no_leg_cx("subprocess"))
            } else {
                Plan::Ask(Drive { command: owned(EXACT_COMMAND), policy, marker: None })
            }
        },
    }
}

/// The last element of an argv.
pub open spec fn last_arg(argv: Seq<Seq<char>>) -> Option<Seq<char>> {
    if argv.len() == 0 {
        None
    } else {
        Some(argv.last())
    }
}

/// What is found of the last consultation and the last spawn the recorders
/// saw, once both saw one.
pub open spec fn handover_findings(
    consulted: Seq<Seq<char>>,
    handed: SpawnView,
    root: Seq<char>,
) -> Seq<Seq<char>> {
    if consulted != handed.argv {
        seq![
            "the sandbox was consulted with "@ + debug_texts(consulted)
                + " and the subprocess was handed "@ + handed.shown()
                + "; the verdict is about different bytes than the command that ran (argv rewriting is the failure this case exists for)"@,
        ]
    } else {
        finding(
            last_arg(consulted) != Some(EXACT_COMMAND@),
            "the command element the sandbox saw is "@ + debug_text_opt(last_arg(consulted))
                + ", not the caller's command "@ + debug_text(EXACT_COMMAND@),
        ) + finding(
            handed.cwd != Some(root),
            "the spawn cwd is "@ + debug_text_opt(handed.cwd) + " but the policy root is "@
                + debug_text(root)
                + "; executor and filesystem must confine to the same declared root"@,
        )
    }
}

/// The outcome of the argv handover.
pub open spec fn argv_outcome(
    outcome: RanView,
    consulted: Option<Seq<Seq<char>>>,
    handed: Option<SpawnView>,
    root: Seq<char>,
    shell_over: bool,
) -> CxView {
    if outcome is Panicked {
        failed(seq!["the provider panicked on a plain command"@])
    } else {
        match (consulted, handed) {
            (Some(argv), Some(spawn)) => failed(handover_findings(argv, spawn, root)),
            (Some(_), None) => skipped("sandbox was consulted but nothing spawned (refusal)"@),
            (None, Some(_)) => failed(
                seq![
                    "the executor spawned a command the sandbox was never consulted about; every spawn goes through the sandbox verdict first"@,
                ],
            ),
            (None, None) => if shell_over {
                skipped("nothing was consulted or spawned (provider refused early)"@)
            } else {
                failed(
                    seq![
                        "the shell never touched the bundle's legs, and the harness did not declare `shell_over`, so the handover was never observable: give the suite a constructor that builds the shell over the legs it hands over, or this case proves nothing"@,
                    ],
                )
            },
        }
    }
}

/// The values of an optional argv.
pub open spec fn argv_opt(v: Option<Vec<String>>) -> Option<Seq<Seq<char>>> {
    match v {
        Some(a) => Some(texts(a@)),
        None => None,
    }
}

/// The value of an optional spawn.
pub open spec fn spawn_opt(v: Option<Spawn>) -> Option<SpawnView> {
    match v {
        Some(s) => Some(s@),
        None => None,
    }
}

fn same_texts(a: &Vec<String>, b: &Vec<String>) -> (r: bool)
    ensures
        r == (texts(a@) == texts(b@)),
{
    if a.len() != b.len() {
        assert(texts(a@).len() != texts(b@).len());
        return false;
    }
    for i in 0..a.len()
        invariant
            a@.len() == b@.len(),
            forall|k: int| 0 <= k < i ==> (#[trigger] texts(a@)[k]) == texts(b@)[k],
    {
        if !same(a[i].as_str(), b[i].as_str()) {
            assert(texts(a@)[i as int] != texts(b@)[i as int]);
            return false;
        }
    }
    assert(texts(a@) =~= texts(b@));
    true
}

/// The sandbox must have been consulted with the exact argv that spawned,
/// element by element, about the caller's own command bytes, and the spawn
/// must start in the policy's root.
pub fn sandbox_sees_exact_argv(
    outcome: &Ran,
    consulted: &Option<Vec<String>>,
    handed: &Option<Spawn>,
    root: &str,
    shell_over: bool,
) -> (r: Cx)
    ensures
        r@ == argv_outcome(outcome@, argv_opt(*consulted), spawn_opt(*handed), root@, shell_over),
{
    if let Ran::Panicked = outcome {
        return fail_cx("the provider panicked on a plain command");
    }
    match (consulted, handed) {
        (Some(argv), Some(spawn)) => {
            if !same_texts(argv, &spawn.argv) {
                return fail_text(
                    cat5(
                        "the sandbox was consulted with ",
                        quoted_list(argv).as_str(),
                        " and the subprocess was handed ",
                        spawn.display().as_str(),
                        "; the verdict is about different bytes than the command that ran (argv rewriting is the failure this case exists for)",
                    ),
                );
            }
            let mut cx = Cx::new();
            let last: Option<String> = if argv.len() == 0 {
                None
            } else {
                Some(argv[argv.len() - 1].clone())
            };
            assert(text_opt(last) == last_arg(texts(argv@)));
            let verbatim = match &last {
                Some(s) => same(s.as_str(), EXACT_COMMAND),
                None => false,
            };
            if !verbatim {
                cx.fail(
                    cat4(
                        "the command element the sandbox saw is ",
                        quoted_opt(&last).as_str(),
                        ", not the caller's command ",
                        quoted(EXACT_COMMAND).as_str(),
                    ),
                );
            }
            let pinned = match &spawn.cwd {
                Some(cwd) => same(cwd.as_str(), root),
                None => false,
            };
            if !pinned {
                cx.fail(
                    cat5(
                        "the spawn cwd is ",
                        quoted_opt(&spawn.cwd).as_str(),
                        " but the policy root is ",
                        quoted(root).as_str(),
                        "; executor and filesystem must confine to the same declared root",
                    ),
                );
            }
            assert(cx@ =~= failed(handover_findings(texts(argv@), spawn@, root@)));
            cx
        },
        (Some(_), None) => skip_cx("sandbox was consulted but nothing spawned (refusal)"),
        (None, Some(_)) => fail_cx(
            "the executor spawned a command the sandbox was never consulted about; every spawn goes through the sandbox verdict first",
        ),
        (None, None) => {
            if shell_over {
                skip_cx("nothing was consulted or spawned (provider refused early)")
            } else {
                fail_cx(
                    "the shell never touched the bundle's legs, and the harness did not declare `shell_over`, so the handover was never observable: give the suite a constructor that builds the shell over the legs it hands over, or this case proves nothing",
                )
            }
        },
    }
}

// ---------------------------------------------------------------------------
// The enforced report
// ---------------------------------------------------------------------------

/// The plan: consult the sandbox on a harmless command under an unconfined
/// and under a confined policy of the same root.
pub open spec fn reason_plan(providers: Executors, fixture: ExecFixtureView) -> PlanView<
    (ConsultView, ConsultView),
> {
    if !providers.sandbox {
        PlanView::Done(no_leg("sandbox"@))
    } else {
        match fixture.root {
            None => PlanView::Done(no_root()),
            Some(root) => PlanView::Ask(
                (
                    ConsultView {
                        argv: sh_argv("true"@),
                        policy: PolicyHomeView { workspace_root: root, default_confined: false },
                    },
                    ConsultView {
                        argv: sh_argv("true"@),
                        policy: PolicyHomeView { workspace_root: root, default_confined: true },
                    },
                ),
            ),
        }
    }
}

/// Plan the reason audit.
pub fn plan_reasons(providers: Executors, fixture: &ExecFixture) -> (r: Plan<(Consult, Consult)>)
    ensures
        r@ == reason_plan(providers, fixture@),
{
    if !providers.sandbox {
        return Plan::Done(no_leg_cx("sandbox"));
    }
    match &fixture.root {
        None => Plan::Done(no_root_cx()),
        Some(root) => Plan::Ask(
            (
                Consult {
                    argv: sh("true"),
                    policy: PolicyHome { workspace_root: root.clone(), default_confined: false },
                },
                Consult {
                    argv: sh("true"),
                    policy: PolicyHome { workspace_root: root.clone(), default_confined: true },
                },
            ),
        ),
    }
}

/// The case after one more report under the policy called `label`.
pub open spec fn report_outcome(cx: CxView, label: Seq<char>, verdict: VerdictView) -> CxView {
    match verdict {
        VerdictView::Decided(e) => cx.and_failed(
            finding(
                is_blank(e.reason),
                "the "@ + label
                    + " verdict reported an empty `reason`; the report must be self-explanatory: "@
                    + e.shown(),
            ) + finding(
                is_blank(e.mode),
                "the "@ + label
                    + " verdict reported an empty `mode`; a report without the mode it enforced cannot be audited: "@
                    + e.shown(),
            ),
        ),
        VerdictView::Failed(e) => cx.and_skipped(
            "sandbox refused to decide the "@ + label + " policy (`"@ + e.code.spelling() + "`)"@,
        ),
        VerdictView::Panicked => cx.and_failed(
            seq!["the sandbox panicked deciding the "@ + label + " policy"@],
        ),
    }
}

fn audit_report(cx: &mut Cx, label: &str, verdict: &Verdict)
    ensures
        final(cx)@ == report_outcome(old(cx)@, label@, verdict@),
{
    match verdict {
        Verdict::Decided(e) => {
            if blank(e.reason.as_str()) {
                cx.fail(
                    cat4(
                        "the ",
                        label,
                        " verdict reported an empty `reason`; the report must be self-explanatory: ",
                        e.display().as_str(),
                    ),
                );
            }
            if blank(e.mode.as_str()) {
                cx.fail(
                    cat4(
                        "the ",
                        label,
                        " verdict reported an empty `mode`; a report without the mode it enforced cannot be audited: ",
                        e.display().as_str(),
                    ),
                );
            }
        },
        Verdict::Failed(e) => cx.skip(
            cat5(
                "sandbox refused to decide the ",
                label,
                " policy (`",
                e.code.as_str(),
                "`)",
            ),
        ),
        Verdict::Panicked => cx.fail(
            cat3("the sandbox panicked deciding the ", label, " policy"),
        ),
    }
    assert(cx@ =~= report_outcome(old(cx)@, label@, verdict@));
}

/// Both verdicts carry a reason and a mode: an auditor must be able to
/// reconstruct the decision from the report alone.
pub fn enforced_reason_is_never_blank(permitted: &Verdict, confined: &Verdict) -> (r: Cx)
    ensures
        r@ == report_outcome(
            report_outcome(clean(), "permitted"@, permitted@),
            "confined"@,
            confined@,
        ),
{
    let mut cx = Cx::new();
    audit_report(&mut cx, "permitted", permitted);
    audit_report(&mut cx, "confined", confined);
    cx
}

/// What is found of a refusal report.
pub open spec fn refusal_audit(e: EnforcedView) -> Seq<Seq<char>> {
    finding(
        e.confined,
        "refusal reported `confined == true`: "@ + e.shown()
            + "; a command that does not run was not confined, and a consumer reading `confined` would record enforcement that never happened"@,
    ) + finding(
        is_blank(e.reason),
        "refusal reported no reason: "@ + e.shown()
            + "; the refusal must be reconstructable from the report alone"@,
    )
}

/// A refusal report must be honest about what it refused.
pub fn audit_refusal(e: &Enforced) -> (r: Cx)
    ensures
        r@ == failed(refusal_audit(e@)),
{
    let mut cx = Cx::new();
    if e.confined {
        cx.fail(
            cat3(
                "refusal reported `confined == true`: ",
                e.display().as_str(),
                "; a command that does not run was not confined, and a consumer reading `confined` would record enforcement that never happened",
            ),
        );
    }
    if blank(e.reason.as_str()) {
        cx.fail(
            cat3(
                "refusal reported no reason: ",
                e.display().as_str(),
                "; the refusal must be reconstructable from the report alone",
            ),
        );
    }
    assert(cx@ =~= failed(refusal_audit(e@)));
    cx
}

/// The plan: consult the sandbox under a confined policy whose root is not
/// there.
pub open spec fn refusal_plan(providers: Executors, fixture: ExecFixtureView) -> PlanView<
    ConsultView,
> {
    if !providers.sandbox {
        PlanView::Done(no_leg("sandbox"@))
    } else {
        match fixture.root {
            None => PlanView::Done(no_root()),
            Some(root) => PlanView::Ask(
                ConsultView { argv: sh_argv("true"@), policy: vanished(root) },
            ),
        }
    }
}

/// Plan the refusal audit.
pub fn plan_refusal(providers: Executors, fixture: &ExecFixture) -> (r: Plan<Consult>)
    ensures
        r@ == refusal_plan(providers, fixture@),
{
    if !providers.sandbox {
        return Plan::Done(no_leg_cx("sandbox"));
    }
    match &fixture.root {
        None => Plan::Done(no_root_cx()),
        Some(root) => Plan::Ask(
            Consult { argv: sh("true"), policy: vanished_policy(root.as_str()) },
        ),
    }
}

/// What follows the natural answer: a refusal is audited; anything else leads
/// to installing a deny verdict and consulting again, under the fixture's own
/// policy.
pub open spec fn after_natural(verdict: VerdictView) -> PlanView<EnforcedView> {
    match verdict {
        VerdictView::Decided(e) => if !e.allowed {
            PlanView::Done(failed(refusal_audit(e)))
        } else {
            PlanView::Ask(installed(false, false, Seq::empty()))
        },
        _ => PlanView::Ask(installed(false, false, Seq::empty())),
    }
}

fn empty_mode() -> (r: &'static str)
    ensures
        r@ == Seq::<char>::empty(),
{
    proof {
        reveal_strlit("");
        assert(""@ =~= Seq::<char>::empty());
    }
    ""
}

/// Take in the natural answer.
pub fn natural_refusal(verdict: &Verdict) -> (r: Plan<Enforced>)
    ensures
        r@ == after_natural(verdict@),
{
    match verdict {
        Verdict::Decided(e) => {
            if !e.allowed {
                Plan::Done(audit_refusal(e))
            } else {
                Plan::Ask(inject(false, false, empty_mode()))
            }
        },
        _ => Plan::Ask(inject(false, false, empty_mode())),
    }
}

/// The outcome when the refusal had to be installed: a sandbox that refuses on
/// neither path leaves the obligation unexercised.
pub open spec fn injected_refusal_outcome(verdict: VerdictView) -> CxView {
    match verdict {
        VerdictView::Decided(e) => if !e.allowed {
            failed(refusal_audit(e))
        } else {
            failed(seq![unreachable_refusal()])
        },
        _ => failed(seq![unreachable_refusal()]),
    }
}

/// How an unreachable refusal is reported.
pub open spec fn unreachable_refusal() -> Seq<char> {
    "no refusal is reachable for this sandbox \u{2014} neither an unenterable root nor an installed deny verdict produced `allowed == false`; the obligation (a refusal never reports `confined == true`) was never exercised"@
}

/// A refusal never reports `confined == true`, and always says why.
pub fn refusal_is_never_reported_as_confined(injected: &Verdict) -> (r: Cx)
    ensures
        r@ == injected_refusal_outcome(injected@),
{
    if let Verdict::Decided(e) = injected {
        if !e.allowed {
            return audit_refusal(e);
        }
    }
    fail_cx(
        "no refusal is reachable for this sandbox \u{2014} neither an unenterable root nor an installed deny verdict produced `allowed == false`; the obligation (a refusal never reports `confined == true`) was never exercised",
    )
}

// ---------------------------------------------------------------------------
// Routing
// ---------------------------------------------------------------------------

/// The plan of a case that runs a marker command through the shell: the legs
/// it needs, then the command, the policy and the marker.
pub open spec fn marker_plan(fixture: ExecFixtureView, case: Seq<char>) -> PlanView<DriveView> {
    match fixture.policy() {
        None => PlanView::Done(no_root()),
        Some(policy) => {
            let marker = marker_path(policy.workspace_root, case);
            PlanView::Ask(
                DriveView { command: touch_line(marker), policy, marker: Some(marker) },
            )
        },
    }
}

fn marker_drive(fixture: &ExecFixture, case: &str) -> (r: Plan<Drive>)
    ensures
        r@ == marker_plan(fixture@, case@),
{
    match fixture.policy() {
        None => Plan::Done(no_root_cx()),
        Some(policy) => {
            let marker = marker_in(policy.workspace_root.as_str(), case);
            Plan::Ask(
                Drive { command: touch_command(marker.as_str()), policy, marker: Some(marker) },
            )
        },
    }
}

/// The plan: run a marker command three times, each under an installed verdict
/// whose other fields contradict `allowed`.
pub open spec fn routing_plan(providers: Executors, fixture: ExecFixtureView) -> PlanView<DriveView> {
    if fixture.policy() is None {
        PlanView::Done(no_root())
    } else if !providers.shell {
        PlanView::Done(no_leg("shell"@))
    } else if !providers.subprocess {
        PlanView::Done(no_leg("subprocess"@))
    } else {
        marker_plan(fixture, "routes-on-allowed"@)
    }
}

/// Plan the routing case.
pub fn plan_routing(providers: Executors, fixture: &ExecFixture) -> (r: Plan<Drive>)
    ensures
        r@ == routing_plan(providers, fixture@),
{
    if fixture.root.is_none() {
        return Plan::Done(no_root_cx());
    }
    if !providers.shell {
        return Plan::Done(no_leg_cx("shell"));
    }
    if !providers.subprocess {
        return Plan::Done(no_leg_cx("subprocess"));
    }
    marker_drive(fixture, "routes-on-allowed")
}

/// The verdict installed for each of the three runs.
pub open spec fn routing_verdict(round: int) -> EnforcedView {
    if round == 0 {
        installed(true, false, "deny-all"@)
    } else if round == 1 {
        installed(true, true, "sandbox-local"@)
    } else {
        installed(false, true, "sandbox-local"@)
    }
}

/// The verdict installed for a run: permitted under a mode that claims to deny
/// everything; permitted and confined; denied and confined.
pub fn routing_verdict_for(round: usize) -> (r: Enforced)
    ensures
        r@ == routing_verdict(round as int),
{
    if round == 0 {
        inject(true, false, "deny-all")
    } else if round == 1 {
        inject(true, true, "sandbox-local")
    } else {
        inject(false, true, "sandbox-local")
    }
}

/// What is found of a run under a permitting verdict. The marker is asserted
/// only when the run reported success.
pub open spec fn permit_findings(
    outcome: RanView,
    marker: bool,
    not_run: Seq<char>,
    not_honoured: Seq<char>,
) -> Seq<Seq<char>> {
    match outcome {
        RanView::Output(_) => finding(!marker, not_run),
        _ => seq![not_honoured + outcome.described()],
    }
}

fn judge_permit(cx: &mut Cx, outcome: &Ran, marker: bool, not_run: &str, not_honoured: &str)
    ensures
        final(cx)@ == old(cx)@.and_failed(
            permit_findings(outcome@, marker, not_run@, not_honoured@),
        ),
{
    match outcome {
        Ran::Output(_) => {
            if !marker {
                cx.fail_str(not_run);
            }
        },
        _ => cx.fail(cat(not_honoured, outcome.described().as_str())),
    }
    assert(cx@ =~= old(cx)@.and_failed(
        permit_findings(outcome@, marker, not_run@, not_honoured@),
    ));
}

/// What is found of a run under a denying verdict.
pub open spec fn deny_findings(outcome: RanView, marker: bool) -> Seq<Seq<char>> {
    (match outcome {
        RanView::Failed(code, message) => finding(
            code != ErrorCode::SandboxDenied,
            "a denied verdict surfaced `"@ + code.spelling()
                + "`; a sandbox refusal is `sandbox-denied` and must stay distinct from every kernel or permission failure ("@
                + message + ")"@,
        ),
        RanView::Output(out) => seq![
            "a denied verdict ran the command anyway and reported success ("@ + debug_text(out)
                + ")"@,
        ],
        RanView::Panicked => seq!["the executor panicked on a denied verdict"@],
    }) + finding(
        marker,
        "the command executed despite `allowed == false`; the verdict is the verdict, whatever `confined`/`mode` say"@,
    )
}

/// What is found of the three runs.
pub open spec fn routing_findings(
    deny_mode: RanView,
    deny_mode_marker: bool,
    confined: RanView,
    confined_marker: bool,
    denied: RanView,
    denied_marker: bool,
) -> Seq<Seq<char>> {
    permit_findings(
        deny_mode,
        deny_mode_marker,
        "a permitted verdict reported success without running the command; the marker file was never created"@,
        "a verdict with `allowed == true` was not honoured: the executor "@,
    ) + permit_findings(
        confined,
        confined_marker,
        "a permitted verdict reported success without running the command; the marker file was never created (a consumer that read `confined` instead of `allowed` is the usual cause)"@,
        "a confined-but-permitted verdict was not honoured: the executor "@,
    ) + deny_findings(denied, denied_marker)
}

/// Consumers route on `allowed` alone. Each outcome comes with whether the
/// marker was there after the run.
pub fn consumer_routes_on_allowed(
    deny_mode: &Ran,
    deny_mode_marker: bool,
    confined: &Ran,
    confined_marker: bool,
    denied: &Ran,
    denied_marker: bool,
) -> (r: Cx)
    ensures
        r@ == failed(
            routing_findings(
                deny_mode@,
                deny_mode_marker,
                confined@,
                confined_marker,
                denied@,
                denied_marker,
            ),
        ),
{
    let mut cx = Cx::new();
    judge_permit(
        &mut cx,
        deny_mode,
        deny_mode_marker,
        "a permitted verdict reported success without running the command; the marker file was never created",
        "a verdict with `allowed == true` was not honoured: the executor ",
    );
    judge_permit(
        &mut cx,
        confined,
        confined_marker,
        "a permitted verdict reported success without running the command; the marker file was never created (a consumer that read `confined` instead of `allowed` is the usual cause)",
        "a confined-but-permitted verdict was not honoured: the executor ",
    );
    match denied {
        Ran::Failed(code, message) => {
            if *code != ErrorCode::SandboxDenied {
                cx.fail(
                    cat5(
                        "a denied verdict surfaced `",
                        code.as_str(),
                        "`; a sandbox refusal is `sandbox-denied` and must stay distinct from every kernel or permission failure (",
                        message.as_str(),
                        ")",
                    ),
                );
            }
        },
        Ran::Output(out) => cx.fail(
            cat3(
                "a denied verdict ran the command anyway and reported success (",
                quoted(out.as_str()).as_str(),
                ")",
            ),
        ),
        Ran::Panicked => cx.fail_str("the executor panicked on a denied verdict"),
    }
    if denied_marker {
        cx.fail_str(
            "the command executed despite `allowed == false`; the verdict is the verdict, whatever `confined`/`mode` say",
        );
    }
    assert(cx@ =~= failed(
        routing_findings(
            deny_mode@,
            deny_mode_marker,
            confined@,
            confined_marker,
            denied@,
            denied_marker,
        ),
    ));
    cx
}

/// The plan: run a marker command under an installed deny, then under an
/// installed permit.
pub open spec fn injected_plan(providers: Executors, fixture: ExecFixtureView) -> PlanView<
    DriveView,
> {
    if fixture.policy() is None {
        PlanView::Done(no_root())
    } else if !providers.shell {
        PlanView::Done(no_leg("shell"@))
    } else if !providers.sandbox {
        PlanView::Done(no_leg("sandbox"@))
    } else if !providers.subprocess {
        PlanView::Done(no_leg("subprocess"@))
    } else {
        marker_plan(fixture, "injected-deny"@)
    }
}

/// Plan the installed-verdict case.
pub fn plan_injected(providers: Executors, fixture: &ExecFixture) -> (r: Plan<Drive>)
    ensures
        r@ == injected_plan(providers, fixture@),
{
    if fixture.root.is_none() {
        return Plan::Done(no_root_cx());
    }
    if !providers.shell {
        return Plan::Done(no_leg_cx("shell"));
    }
    if !providers.sandbox {
        return Plan::Done(no_leg_cx("sandbox"));
    }
    if !providers.subprocess {
        return Plan::Done(no_leg_cx("subprocess"));
    }
    marker_drive(fixture, "injected-deny")
}

/// The verdict installed for each of the two runs: a deny, then a permit.
pub fn injected_verdict_for(permit: bool) -> (r: Enforced)
    ensures
        r@ == installed(permit, false, Seq::empty()),
{
    inject(permit, false, empty_mode())
}

/// What is found of the two runs.
pub open spec fn injected_findings(denied: RanView, marker: bool, permitted: RanView) -> Seq<
    Seq<char>,
> {
    (match denied {
        RanView::Failed(code, message) => finding(
            code != ErrorCode::SandboxDenied,
            "an installed deny verdict surfaced `"@ + code.spelling()
                + "`; a sandbox refusal is `sandbox-denied` ("@ + message + ")"@,
        ),
        RanView::Output(out) => seq![
            "the shell ran a command its own sandbox had denied and reported success ("@
                + debug_text(out) + "); the installed verdict was never consulted"@,
        ],
        RanView::Panicked => seq!["the executor panicked on an installed deny verdict"@],
    }) + finding(
        marker,
        "the command ran despite an installed `allowed == false` verdict that the sandbox on the shell's path was obliged to hand back"@,
    ) + finding(
        !(permitted is Output),
        "an installed permit verdict was not honoured: the executor "@ + permitted.described(),
    )
}

/// An installed deny verdict reaches the shell even when its own policy
/// permits, and an installed permit runs: a shell that refuses everything does
/// not pass.
pub fn injected_deny_reaches_shell(denied: &Ran, marker: bool, permitted: &Ran) -> (r: Cx)
    ensures
        r@ == failed(injected_findings(denied@, marker, permitted@)),
{
    let mut cx = Cx::new();
    match denied {
        Ran::Failed(code, message) => {
            if *code != ErrorCode::SandboxDenied {
                cx.fail(
                    cat5(
                        "an installed deny verdict surfaced `",
                        code.as_str(),
                        "`; a sandbox refusal is `sandbox-denied` (",
                        message.as_str(),
                        ")",
                    ),
                );
            }
        },
        Ran::Output(out) => cx.fail(
            cat3(
                "the shell ran a command its own sandbox had denied and reported success (",
                quoted(out.as_str()).as_str(),
                "); the installed verdict was never consulted",
            ),
        ),
        Ran::Panicked => cx.fail_str("the executor panicked on an installed deny verdict"),
    }
    if marker {
        cx.fail_str(
            "the command ran despite an installed `allowed == false` verdict that the sandbox on the shell's path was obliged to hand back",
        );
    }
    match permitted {
        Ran::Output(_) => {},
        _ => cx.fail(
            cat(
                "an installed permit verdict was not honoured: the executor ",
                permitted.described().as_str(),
            ),
        ),
    }
    assert(cx@ =~= failed(injected_findings(denied@, marker, permitted@)));
    cx
}

/// What a sandbox that only hands back installed verdicts reports when none is
/// installed: a plain permit.
pub fn default_permit() -> (r: Enforced)
    ensures
        r@ == (EnforcedView {
            allowed: true,
            confined: false,
            mode: Seq::empty(),
            reason: "conformance suite default permit"@,
        }),
{
    Enforced {
        allowed: true,
        confined: false,
        mode: owned(empty_mode()),
        reason: owned("conformance suite default permit"),
    }
}

// ---------------------------------------------------------------------------
// Denial
// ---------------------------------------------------------------------------

/// The plan: consult the sandbox on a marker command under a policy whose root
/// is not there.
pub open spec fn denial_plan(providers: Executors, fixture: ExecFixtureView) -> PlanView<
    (ConsultView, DriveView),
> {
    if !providers.shell {
        PlanView::Done(no_leg("shell"@))
    } else if !providers.subprocess {
        PlanView::Done(no_leg("subprocess"@))
    } else if !providers.sandbox {
        PlanView::Done(no_leg("sandbox"@))
    } else {
        match fixture.root {
            None => PlanView::Done(no_root()),
            Some(root) => {
                let marker = marker_path(root, "denied"@);
                PlanView::Ask(
                    (
                        ConsultView {
                            argv: sh_argv(touch_line(marker)),
                            policy: vanished(root),
                        },
                        DriveView {
                            command: touch_line(marker),
                            policy: vanished(root),
                            marker: Some(marker),
                        },
                    ),
                )
            },
        }
    }
}

/// Plan the denial case.
pub fn plan_denial(providers: Executors, fixture: &ExecFixture) -> (r: Plan<(Consult, Drive)>)
    ensures
        r@ == denial_plan(providers, fixture@),
{
    if !providers.shell {
        return Plan::Done(no_leg_cx("shell"));
    }
    if !providers.subprocess {
        return Plan::Done(no_leg_cx("subprocess"));
    }
    if !providers.sandbox {
        return Plan::Done(no_leg_cx("sandbox"));
    }
    match &fixture.root {
        None => Plan::Done(no_root_cx()),
        Some(root) => {
            let marker = marker_in(root.as_str(), "denied");
            let command = touch_command(marker.as_str());
            Plan::Ask(
                (
                    Consult {
                        argv: sh(command.as_str()),
                        policy: vanished_policy(root.as_str()),
                    },
                    Drive {
                        command,
                        policy: vanished_policy(root.as_str()),
                        marker: Some(marker),
                    },
                ),
            )
        },
    }
}

/// What follows the sandbox's answer: a refusal is installed and the command run; a
/// provider without a refusing policy owes nothing.
pub open spec fn after_denial(verdict: VerdictView) -> PlanView<EnforcedView> {
    match verdict {
        VerdictView::Decided(e) => if e.allowed {
            PlanView::Done(
                skipped("no refusing policy available for this provider; nothing to assert"@),
            )
        } else {
            PlanView::Ask(e)
        },
        VerdictView::Failed(e) => PlanView::Done(
            skipped(
                "sandbox errored instead of reporting a verdict (`"@ + e.code.spelling() + "`)"@,
            ),
        ),
        VerdictView::Panicked => PlanView::Done(
            failed(seq!["the sandbox panicked on a policy whose root does not exist"@]),
        ),
    }
}

/// Take in the verdict on the denied command.
pub fn denial_verdict(verdict: &Verdict) -> (r: Plan<Enforced>)
    ensures
        r@ == after_denial(verdict@),
{
    match verdict {
        Verdict::Decided(e) => {
            if e.allowed {
                Plan::Done(
                    skip_cx("no refusing policy available for this provider; nothing to assert"),
                )
            } else {
                Plan::Ask(e.copy())
            }
        },
        Verdict::Failed(e) => Plan::Done(
            skip_text(
                cat3(
                    "sandbox errored instead of reporting a verdict (`",
                    e.code.as_str(),
                    "`)",
                ),
            ),
        ),
        Verdict::Panicked => Plan::Done(
            fail_cx("the sandbox panicked on a policy whose root does not exist"),
        ),
    }
}

/// What is found of running the denied command.
pub open spec fn denial_findings(verdict: EnforcedView, outcome: RanView, marker: bool) -> Seq<
    Seq<char>,
> {
    (match outcome {
        RanView::Failed(ErrorCode::SandboxDenied, message) => finding(
            !occurs(message, verdict.mode) && !occurs(message, verdict.reason),
            "the refusal surfaced as `"@ + ErrorCode::SandboxDenied.spelling()
                + "` without the enforced mode or reason in it: "@ + debug_text(message)
                + " (verdict was "@ + verdict.shown() + ")"@,
        ),
        _ => seq![
            "a denied command surfaced as "@ + outcome.described()
                + " instead of a `sandbox-denied` refusal"@,
        ],
    }) + finding(
        marker,
        "the refused command produced its side effect; the denial happened too late"@,
    )
}

/// A denied command never runs, and its refusal can be audited from what the
/// caller sees.
pub fn denied_command_never_runs(verdict: &Enforced, outcome: &Ran, marker: bool) -> (r: Cx)
    ensures
        r@ == failed(denial_findings(verdict@, outcome@, marker)),
{
    let mut cx = Cx::new();
    match outcome {
        Ran::Failed(ErrorCode::SandboxDenied, message) => {
            if !contains(message.as_str(), verdict.mode.as_str()) && !contains(
                message.as_str(),
                verdict.reason.as_str(),
            ) {
                cx.fail(
                    cat7(
                        "the refusal surfaced as `",
                        ErrorCode::SandboxDenied.as_str(),
                        "` without the enforced mode or reason in it: ",
                        quoted(message.as_str()).as_str(),
                        " (verdict was ",
                        verdict.display().as_str(),
                        ")",
                    ),
                );
            }
        },
        _ => cx.fail(
            cat3(
                "a denied command surfaced as ",
                outcome.described().as_str(),
                " instead of a `sandbox-denied` refusal",
            ),
        ),
    }
    if marker {
        cx.fail_str("the refused command produced its side effect; the denial happened too late");
    }
    assert(cx@ =~= failed(denial_findings(verdict@, outcome@, marker)));
    cx
}

// ---------------------------------------------------------------------------
// Confinement is real
// ---------------------------------------------------------------------------

/// The plan: canonicalize the scratch root, so that a pinned directory can be
/// told from an inherited one.
pub open spec fn confined_plan(providers: Executors, fixture: ExecFixtureView) -> PlanView<
    Seq<char>,
> {
    match fixture.root {
        None => PlanView::Done(no_root()),
        Some(root) => if !providers.shell {
            PlanView::Done(no_leg("shell"@))
        } else if !fixture.confined {
            PlanView::Done(
                skipped("fixture policy is not confined; confinement is unobservable"@),
            )
        } else {
            PlanView::Ask(root)
        },
    }
}

/// Plan the confined run.
pub fn plan_confined(providers: Executors, fixture: &ExecFixture) -> (r: Plan<String>)
    ensures
        r@ == confined_plan(providers, fixture@),
{
    match &fixture.root {
        None => Plan::Done(no_root_cx()),
        Some(root) => {
            if !providers.shell {
                Plan::Done(no_leg_cx("shell"))
            } else if !fixture.confined {
                Plan::Done(
                    skip_cx("fixture policy is not confined; confinement is unobservable"),
                )
            } else {
                Plan::Ask(root.clone())
            }
        },
    }
}

/// The confined policy of a canonical root.
pub open spec fn confined_policy(canonical: Seq<char>) -> PolicyHomeView {
    PolicyHomeView { workspace_root: canonical, default_confined: true }
}

/// What follows canonicalizing the root: ask the sandbox what it intends.
pub open spec fn after_canonical(
    providers: Executors,
    canonical: Result<Seq<char>, Seq<char>>,
) -> PlanView<ConsultView> {
    match canonical {
        Err(why) => PlanView::Done(skipped("scratch root is not canonicalisable: "@ + why)),
        Ok(root) => if !providers.sandbox {
            PlanView::Done(no_leg("sandbox"@))
        } else {
            PlanView::Ask(
                ConsultView { argv: sh_argv("pwd; env"@), policy: confined_policy(root) },
            )
        },
    }
}

/// The value of canonicalizing a root.
pub open spec fn canonical_view(r: Result<String, String>) -> Result<Seq<char>, Seq<char>> {
    match r {
        Ok(s) => Ok(s@),
        Err(s) => Err(s@),
    }
}

/// Take in the canonical root (or why there is none).
pub fn confined_root(providers: Executors, canonical: &Result<String, String>) -> (r: Plan<Consult>)
    ensures
        r@ == after_canonical(providers, canonical_view(*canonical)),
{
    match canonical {
        Err(why) => Plan::Done(
            skip_text(cat("scratch root is not canonicalisable: ", why.as_str())),
        ),
        Ok(root) => {
            if !providers.sandbox {
                Plan::Done(no_leg_cx("sandbox"))
            } else {
                Plan::Ask(
                    Consult {
                        argv: sh(inspect_command()),
                        policy: PolicyHome {
                            workspace_root: root.clone(),
                            default_confined: true,
                        },
                    },
                )
            }
        },
    }
}

/// What follows the verdict on the confined policy: only a permitted, confined
/// verdict promises anything to observe.
pub open spec fn after_confined_verdict(verdict: VerdictView) -> PlanView<()> {
    match verdict {
        VerdictView::Failed(e) => PlanView::Done(
            skipped("sandbox errored on the confined policy (`"@ + e.code.spelling() + "`)"@),
        ),
        VerdictView::Panicked => PlanView::Done(
            failed(seq!["the sandbox panicked on the confined scratch policy"@]),
        ),
        VerdictView::Decided(e) => if !e.allowed {
            PlanView::Done(
                skipped("sandbox refused the confined scratch policy: "@ + e.reason),
            )
        } else if !e.confined {
            PlanView::Done(
                skipped("confined policy produced an unconfined verdict; nothing to observe"@),
            )
        } else {
            PlanView::Ask(())
        },
    }
}

/// Take in the verdict on the confined policy.
pub fn confined_verdict(verdict: &Verdict) -> (r: Plan<()>)
    ensures
        r@ == after_confined_verdict(verdict@),
{
    match verdict {
        Verdict::Failed(e) => Plan::Done(
            skip_text(
                cat3("sandbox errored on the confined policy (`", e.code.as_str(), "`)"),
            ),
        ),
        Verdict::Panicked => Plan::Done(
            fail_cx("the sandbox panicked on the confined scratch policy"),
        ),
        Verdict::Decided(e) => {
            if !e.allowed {
                Plan::Done(
                    skip_text(
                        cat("sandbox refused the confined scratch policy: ", e.reason.as_str()),
                    ),
                )
            } else if !e.confined {
                Plan::Done(
                    skip_cx(
                        "confined policy produced an unconfined verdict; nothing to observe",
                    ),
                )
            } else {
                Plan::Ask(())
            }
        },
    }
}

/// Everything before the first newline.
pub open spec fn first_line(s: Seq<char>) -> Seq<char>
    decreases s.len(),
{
    if s.len() == 0 || s[0] == '\n' {
        Seq::empty()
    } else {
        seq![s[0]] + first_line(s.skip(1))
    }
}

fn head_line(s: &str) -> (r: String)
    ensures
        r@ == first_line(s@),
{
    let cs = chars_of(s);
    let mut i: usize = 0;
    assert(cs@.skip(0) =~= cs@);
    assert(cs@.take(0) + first_line(cs@.skip(0)) =~= first_line(cs@));
    while i < cs.len() && cs[i] != '\n'
        invariant
            i <= cs@.len(),
            cs@.take(i as int) + first_line(cs@.skip(i as int)) == first_line(cs@),
        decreases cs@.len() - i,
    {
        assert(cs@.skip(i as int).skip(1) =~= cs@.skip(i + 1));
        assert(cs@.take(i + 1) + first_line(cs@.skip(i + 1)) =~= cs@.take(i as int) + first_line(
            cs@.skip(i as int),
        ));
        i = i + 1;
    }
    assert(first_line(cs@.skip(i as int)) =~= Seq::<char>::empty());
    assert(cs@.subrange(0, i as int) =~= cs@.take(i as int));
    assert(cs@.take(i as int) + Seq::<char>::empty() =~= cs@.take(i as int));
    text_of(&cs, 0, i)
}

/// What is found of the child's reported directory.
pub open spec fn cwd_findings(output: Seq<char>, canonical: Seq<char>) -> Seq<Seq<char>> {
    let reported = trimmed(first_line(output));
    finding(
        reported != canonical,
        "confined child reported cwd "@ + debug_text(reported) + ", expected the workspace root "@
            + debug_text(canonical) + "; the verdict promised a pinned cwd. output:\n"@ + output,
    )
}

/// What is found of the child's environment, once the proof variable `proof`
/// was really placed there.
pub open spec fn env_findings(
    output: Seq<char>,
    proof: Seq<char>,
    control: Option<(Seq<char>, Seq<char>)>,
) -> Seq<Seq<char>> {
    finding(
        occurs(output, proof),
        "credential-shaped variable "@ + proof
            + " survived the scrub and reached the confined child; output:\n"@ + output,
    ) + match control {
        Some((name, value)) => finding(
            !occurs(output, name + "="@ + value),
            "non-credential variable "@ + name
                + " was removed too; a scrub that drops everything is not a scrub. output:\n"@
                + output,
        ),
        None => Seq::empty(),
    }
}

/// The outcome of the confined run.
pub open spec fn confined_outcome(
    fixture: ExecFixtureView,
    canonical: Seq<char>,
    outcome: RanView,
) -> CxView {
    match outcome {
        RanView::Output(output) => match (fixture.proof_var, fixture.proof_vars_applied) {
            (Some((proof, _)), true) => failed(
                cwd_findings(output, canonical) + env_findings(output, proof, fixture.control_var),
            ),
            _ => failed(cwd_findings(output, canonical)).and_skipped(
                "harness placed no proof variable; env scrub unobservable"@,
            ),
        },
        RanView::Failed(code, message) => failed(
            seq![
                "a permitted confined command failed with `"@ + code.spelling() + "` ("@ + message
                    + "); confined runs must run, or the verdict is overstating what the provider enforces"@,
            ],
        ),
        RanView::Panicked => failed(seq!["the provider panicked running a confined command"@]),
    }
}

/// A confined run is actually confined: the child starts in the workspace
/// root, without the credential-shaped variable and with the control one.
pub fn confined_run_is_actually_confined(
    fixture: &ExecFixture,
    canonical: &str,
    outcome: &Ran,
) -> (r: Cx)
    ensures
        r@ == confined_outcome(fixture@, canonical@, outcome@),
{
    let output = match outcome {
        Ran::Output(out) => out.as_str(),
        Ran::Failed(code, message) => {
            return fail_text(
                cat5(
                    "a permitted confined command failed with `",
                    code.as_str(),
                    "` (",
                    message.as_str(),
                    "); confined runs must run, or the verdict is overstating what the provider enforces",
                ),
            );
        },
        Ran::Panicked => {
            return fail_cx("the provider panicked running a confined command");
        },
    };
    let mut cx = Cx::new();
    let reported = trim(head_line(output).as_str());
    if !same(reported.as_str(), canonical) {
        cx.fail(
            cat(
                cat5(
                    "confined child reported cwd ",
                    quoted(reported.as_str()).as_str(),
                    ", expected the workspace root ",
                    quoted(canonical).as_str(),
                    "; the verdict promised a pinned cwd. output:\n",
                ).as_str(),
                output,
            ),
        );
    }
    assert(cx@ =~= failed(cwd_findings(output@, canonical@)));
    if fixture.proof_vars_applied {
        if let Some(proof) = &fixture.proof_var {
            if contains(output, proof.0.as_str()) {
                cx.fail(
                    cat4(
                        "credential-shaped variable ",
                        proof.0.as_str(),
                        " survived the scrub and reached the confined child; output:\n",
                        output,
                    ),
                );
            }
            if let Some(control) = &fixture.control_var {
                let kept = cat3(control.0.as_str(), "=", control.1.as_str());
                if !contains(output, kept.as_str()) {
                    cx.fail(
                        cat4(
                            "non-credential variable ",
                            control.0.as_str(),
                            " was removed too; a scrub that drops everything is not a scrub. output:\n",
                            output,
                        ),
                    );
                }
            }
            assert(cx@ =~= failed(
                cwd_findings(output@, canonical@) + env_findings(
                    output@,
                    proof.0@,
                    fixture@.control_var,
                ),
            ));
            return cx;
        }
    }
    cx.skip(owned("harness placed no proof variable; env scrub unobservable"));
    cx
}

// ---------------------------------------------------------------------------
// Cancellation
// ---------------------------------------------------------------------------

/// A spawn in `cwd` without confinement.
pub open spec fn plain_spawn(command: Seq<char>, cwd: Seq<char>) -> SpawnView {
    SpawnView { argv: sh_argv(command), cwd: Some(cwd), confine: None }
}

fn sh_spawn(command: &str, cwd: &str) -> (r: Spawn)
    ensures
        r@ == plain_spawn(command@, cwd@),
{
    Spawn { argv: sh(command), cwd: Some(owned(cwd)), confine: None }
}

/// The command that is cancelled: it announces itself, then outlives the
/// cancellation bound by five seconds.
pub open spec fn cancelled_line(timeout: Span) -> Seq<char> {
    "echo "@ + CANCEL_SENTINEL@ + "; sleep "@ + decimal_text((timeout.secs + 5) as nat)
        + "; echo should-not-print"@
}

/// Whether the command that is to be cancelled, where one is spawned, can outlast
/// the bound by five seconds.
pub open spec fn cancellable(providers: Executors, fixture: ExecFixtureView) -> bool {
    providers.subprocess && fixture.root is Some ==> fixture.cancel_timeout.secs + 5 <= u64::MAX
}

/// The plan: spawn the command that is to be cancelled.
pub open spec fn cancel_plan(providers: Executors, fixture: ExecFixtureView) -> PlanView<SpawnView> {
    if !providers.subprocess {
        PlanView::Done(no_leg("subprocess"@))
    } else {
        match fixture.root {
            None => PlanView::Done(no_root()),
            Some(root) => PlanView::Ask(plain_spawn(cancelled_line(fixture.cancel_timeout), root)),
        }
    }
}

/// Plan the cancellation case.
pub fn plan_cancellation(providers: Executors, fixture: &ExecFixture) -> (r: Plan<Spawn>)
    requires
        cancellable(providers, fixture@),
    ensures
        r@ == cancel_plan(providers, fixture@),
{
    if !providers.subprocess {
        return Plan::Done(no_leg_cx("subprocess"));
    }
    match &fixture.root {
        None => Plan::Done(no_root_cx()),
        Some(root) => {
            let line = cat5(
                "echo ",
                CANCEL_SENTINEL,
                "; sleep ",
                decimal(fixture.cancel_timeout.secs + 5).as_str(),
                "; echo should-not-print",
            );
            Plan::Ask(sh_spawn(line.as_str(), root.as_str()))
        },
    }
}

/// The answer to a spawn.
pub enum Spawned {
    Accepted,
    Refused(SeamError),
    Panicked,
}

/// What follows spawning the command that is to be cancelled.
pub open spec fn after_cancel_spawn(spawned: Spawned) -> PlanView<()> {
    match spawned {
        Spawned::Accepted => PlanView::Ask(()),
        Spawned::Refused(e) => PlanView::Done(
            skipped(
                "subprocess refused the cancellation fixture (`"@ + e.code.spelling() + "`)"@,
            ),
        ),
        Spawned::Panicked => PlanView::Done(
            failed(seq!["the subprocess panicked spawning a plain command"@]),
        ),
    }
}

/// Take in the answer to spawning the command that is to be cancelled.
pub fn cancellation_spawned(spawned: &Spawned) -> (r: Plan<()>)
    ensures
        r@ == after_cancel_spawn(*spawned),
{
    match spawned {
        Spawned::Accepted => Plan::Ask(()),
        Spawned::Refused(e) => Plan::Done(
            skip_text(
                cat3("subprocess refused the cancellation fixture (`", e.code.as_str(), "`)"),
            ),
        ),
        Spawned::Panicked => Plan::Done(
            fail_cx("the subprocess panicked spawning a plain command"),
        ),
    }
}

/// The outcome of one sentinel probe.
#[derive(Debug, Clone, Copy, PartialEq, Eq, Structural)]
pub enum Probe {
    /// The probe announced itself: the provider reached a cancellable state.
    Running,
    /// The provider rejected the spawn. Nothing was started.
    Refused,
    /// Accepted, never announced, and not given back on `cancel`.
    Silent,
    /// Accepted, never announced, but released once asked.
    SilentButReleased,
}

/// The probe's command line: announce, then run on.
pub open spec fn probe_line() -> Seq<char> {
    "echo "@ + CANCEL_SENTINEL@ + "; sleep "@ + decimal_text(PROBE_LIFETIME_SECS as nat)
}

/// The probe: announce, then run on.
pub fn probe_spawn(cwd: &str) -> (r: Spawn)
    ensures
        r@ == plain_spawn(probe_line(), cwd@),
{
    let line = cat4(
        "echo ",
        CANCEL_SENTINEL,
        "; sleep ",
        decimal(PROBE_LIFETIME_SECS).as_str(),
    );
    sh_spawn(line.as_str(), cwd)
}

/// Whether a probe's output holds the announcement.
pub fn announced(output: &Result<String, SeamError>) -> (r: bool)
    ensures
        r == (*output matches Ok(out) && occurs(out@, CANCEL_SENTINEL@)),
{
    match output {
        Ok(out) => contains(out.as_str(), CANCEL_SENTINEL),
        Err(_) => false,
    }
}

/// What came of the last move of a probe.
#[derive(Debug, Clone, Copy, PartialEq, Eq, Structural)]
pub enum ProbeEvent {
    /// Whether the spawn was accepted.
    Spawned(bool),
    /// Whether the child announced itself inside the bound; `None` when nothing came.
    Heard(Option<bool>),
    /// Whether the child came back once it was cancelled.
    Released(bool),
}

/// What a probe does next.
#[derive(Debug, Clone, Copy, PartialEq, Eq, Structural)]
pub enum ProbeMove {
    /// Wait for the announcement, inside the bound.
    Listen,
    /// Cancel the child, and wait for it inside the bound.
    Cancel,
    /// The probe is over.
    Done(Probe),
}

/// What follows a move of a probe: only a child that did not announce itself is
/// asked back.
pub open spec fn probed(event: ProbeEvent) -> ProbeMove {
    match event {
        ProbeEvent::Spawned(false) => ProbeMove::Done(Probe::Refused),
        ProbeEvent::Spawned(true) => ProbeMove::Listen,
        ProbeEvent::Heard(Some(true)) => ProbeMove::Done(Probe::Running),
        ProbeEvent::Heard(_) => ProbeMove::Cancel,
        ProbeEvent::Released(true) => ProbeMove::Done(Probe::SilentButReleased),
        ProbeEvent::Released(false) => ProbeMove::Done(Probe::Silent),
    }
}

/// What follows a move of a probe.
pub fn probe_running(event: ProbeEvent) -> (r: ProbeMove)
    ensures
        r == probed(event),
{
    match event {
        ProbeEvent::Spawned(false) => ProbeMove::Done(Probe::Refused),
        ProbeEvent::Spawned(true) => ProbeMove::Listen,
        ProbeEvent::Heard(Some(true)) => ProbeMove::Done(Probe::Running),
        ProbeEvent::Heard(_) => ProbeMove::Cancel,
        ProbeEvent::Released(true) => ProbeMove::Done(Probe::SilentButReleased),
        ProbeEvent::Released(false) => ProbeMove::Done(Probe::Silent),
    }
}

/// What follows the sentinel probe: cancelling a child that never started
/// proves nothing; keeping one that was to be released is the defect itself.
pub open spec fn after_sentinel(probe: Probe) -> PlanView<()> {
    match probe {
        Probe::Running => PlanView::Ask(()),
        Probe::Refused => PlanView::Done(
            skipped(
                "the subprocess refused the cancellation fixture; cancelling a child that never started proves nothing about cancellation"@,
            ),
        ),
        Probe::Silent => PlanView::Done(
            failed(
                seq![
                    "the subprocess accepted a child, never released it on `cancel`, and never reported it as running; a caller that cannot stop what it spawned has failed the cancellation obligation"@,
                ],
            ),
        ),
        Probe::SilentButReleased => PlanView::Done(
            skipped(
                "the subprocess accepted the cancellation fixture but never reported it as running; no child reached a cancellable state"@,
            ),
        ),
    }
}

/// Take in the sentinel probe.
pub fn await_sentinel(probe: Probe) -> (r: Plan<()>)
    ensures
        r@ == after_sentinel(probe),
{
    match probe {
        Probe::Running => Plan::Ask(()),
        Probe::Refused => Plan::Done(
            skip_cx(
                "the subprocess refused the cancellation fixture; cancelling a child that never started proves nothing about cancellation",
            ),
        ),
        Probe::Silent => Plan::Done(
            fail_cx(
                "the subprocess accepted a child, never released it on `cancel`, and never reported it as running; a caller that cannot stop what it spawned has failed the cancellation obligation",
            ),
        ),
        Probe::SilentButReleased => Plan::Done(
            skip_cx(
                "the subprocess accepted the cancellation fixture but never reported it as running; no child reached a cancellable state",
            ),
        ),
    }
}

/// Whether the provider releases what it spawns.
#[derive(Debug, Clone, Copy, PartialEq, Eq, Structural)]
pub enum Quiet {
    /// A trivial probe ran and came back.
    Quiet,
    /// The provider rejected a trivial command outright.
    Rejected,
    /// A trivial probe was accepted and its child never came back.
    Stuck,
}

/// The trivial probe.
pub fn quiet_spawn(cwd: &str) -> (r: Spawn)
    ensures
        r@ == plain_spawn("true"@, cwd@),
{
    sh_spawn("true", cwd)
}

/// What the trivial probe came to: whether it was accepted, and whether its
/// child came back inside the bound.
pub fn quiet_probe(accepted: bool, came_back: bool) -> (r: Quiet)
    ensures
        r == (if !accepted {
            Quiet::Rejected
        } else if came_back {
            Quiet::Quiet
        } else {
            Quiet::Stuck
        }),
{
    if !accepted {
        Quiet::Rejected
    } else if came_back {
        Quiet::Quiet
    } else {
        Quiet::Stuck
    }
}

/// What follows the trivial probe.
pub open spec fn after_quiet(quiet: Quiet) -> PlanView<()> {
    match quiet {
        Quiet::Quiet => PlanView::Ask(()),
        Quiet::Rejected => PlanView::Done(
            skipped(
                "the subprocess rejects a trivial probe spawn; cannot measure cancellation cleanly"@,
            ),
        ),
        Quiet::Stuck => PlanView::Done(
            failed(
                seq![
                    "a trivial probe spawn was accepted but its child was never reaped; children are not being released, which is what `cancel` exists to do"@,
                ],
            ),
        ),
    }
}

/// Take in the trivial probe.
pub fn wait_until_quiet(quiet: Quiet) -> (r: Plan<()>)
    ensures
        r@ == after_quiet(quiet),
{
    match quiet {
        Quiet::Quiet => Plan::Ask(()),
        Quiet::Rejected => Plan::Done(
            skip_cx(
                "the subprocess rejects a trivial probe spawn; cannot measure cancellation cleanly",
            ),
        ),
        Quiet::Stuck => Plan::Done(
            fail_cx(
                "a trivial probe spawn was accepted but its child was never reaped; children are not being released, which is what `cancel` exists to do",
            ),
        ),
    }
}

/// Why no probe announced itself.
#[derive(Debug, Clone, Copy, PartialEq, Eq, Structural)]
pub enum RanUp {
    /// Every probe was refused, or silent but released.
    NeverSpawned,
    /// At least one probe was accepted and never released.
    SpawnedButQuiet,
}

/// The probing that precedes the cancellation: rounds until one announces
/// itself or the bound passes.
pub struct Await {
    ever_accepted: bool,
}

impl View for Await {
    type V = bool;

    /// Whether some probe was accepted and never released.
    closed spec fn view(&self) -> bool {
        self.ever_accepted
    }
}

impl Await {
    /// No probe made yet.
    pub fn new() -> (r: Await)
        ensures
            !r@,
    {
        Await { ever_accepted: false }
    }

    /// Take in one round. `None` asks for another.
    pub fn await_running(&mut self, probe: Probe, past_bound: bool) -> (r: Option<Result<(), RanUp>>)
        ensures
            final(self)@ == (old(self)@ || probe == Probe::Silent),
            r == (if probe == Probe::Running {
                Some(Ok::<(), RanUp>(()))
            } else if !past_bound {
                None
            } else if final(self)@ {
                Some(Err::<(), RanUp>(RanUp::SpawnedButQuiet))
            } else {
                Some(Err::<(), RanUp>(RanUp::NeverSpawned))
            }),
    {
        match probe {
            Probe::Running => {
                return Some(Ok(()));
            },
            Probe::Silent => {
                self.ever_accepted = true;
            },
            _ => {},
        }
        if !past_bound {
            return None;
        }
        if self.ever_accepted {
            Some(Err(RanUp::SpawnedButQuiet))
        } else {
            Some(Err(RanUp::NeverSpawned))
        }
    }
}

/// How the measured command ended.
pub enum Measured {
    /// It was cancelled mid-run, and the wait for it returned this.
    Waited(Result<String, SeamError>),
    /// It was cancelled mid-run, and the wait for it panicked.
    WaitPanicked,
    /// No probe got running, so nothing was cancelled.
    Unreached(RanUp),
    /// `cancel` panicked.
    CancelPanicked,
}

/// The outcome of the measured cancellation, `elapsed` after it began.
pub open spec fn cancel_outcome(measured: Measured, elapsed: Span, bound: Span) -> CxView {
    match measured {
        Measured::WaitPanicked => failed(
            seq!["waiting for the cancelled command panicked the executor"@],
        ),
        Measured::Unreached(RanUp::NeverSpawned) => skipped(
            "the measured command never announced itself mid-run; nothing to cancel"@,
        ),
        Measured::Unreached(RanUp::SpawnedButQuiet) => failed(
            seq![
                "the provider spawned probe children but the measured command never announced itself mid-run; a provider that never releases children on `cancel` starves its own spawns, which is the defect this case states"@,
            ],
        ),
        Measured::CancelPanicked => failed(seq!["`SpawnHandle::cancel` panicked"@]),
        Measured::Waited(r) => failed(
            (match r {
                Ok(out) => seq![
                    "a cancelled command returned Ok("@ + debug_text(out@) + ") after "@
                        + duration_text(elapsed.secs, elapsed.nanos)
                        + "; cancellation must not deliver a completed run as success"@,
                ],
                Err(e) => finding(
                    e.code != ErrorCode::ExecCancelled,
                    "a cancelled command failed with `"@ + e.code.spelling()
                        + "`; a cancelled run must report `exec-cancelled`, since a caller routes on the code to avoid retrying its own cancellation"@,
                ),
            }) + finding(
                elapsed.nanoseconds() > bound.nanoseconds(),
                "the cancelled command took "@ + duration_text(elapsed.secs, elapsed.nanos)
                    + " to stop, past the fixture's "@ + duration_text(bound.secs, bound.nanos)
                    + " bound; `cancel` did not reach the process"@,
            ),
        ),
    }
}

/// A caller waiting on a cancelled run stops waiting inside the bound, and
/// learns that the run was cancelled.
pub fn cancellation_is_honoured(measured: &Measured, elapsed: Span, bound: Span) -> (r: Cx)
    requires
        elapsed.wf(),
        bound.wf(),
    ensures
        r@ == cancel_outcome(*measured, elapsed, bound),
{
    match measured {
        Measured::WaitPanicked => fail_cx(
            "waiting for the cancelled command panicked the executor",
        ),
        Measured::Unreached(RanUp::NeverSpawned) => skip_cx(
            "the measured command never announced itself mid-run; nothing to cancel",
        ),
        Measured::Unreached(RanUp::SpawnedButQuiet) => fail_cx(
            "the provider spawned probe children but the measured command never announced itself mid-run; a provider that never releases children on `cancel` starves its own spawns, which is the defect this case states",
        ),
        Measured::CancelPanicked => fail_cx("`SpawnHandle::cancel` panicked"),
        Measured::Waited(outcome) => {
            let mut cx = Cx::new();
            match outcome {
                Ok(out) => cx.fail(
                    cat5(
                        "a cancelled command returned Ok(",
                        quoted(out.as_str()).as_str(),
                        ") after ",
                        shown_span(elapsed).as_str(),
                        "; cancellation must not deliver a completed run as success",
                    ),
                ),
                Err(e) => {
                    if e.code != ErrorCode::ExecCancelled {
                        cx.fail(
                            cat3(
                                "a cancelled command failed with `",
                                e.code.as_str(),
                                "`; a cancelled run must report `exec-cancelled`, since a caller routes on the code to avoid retrying its own cancellation",
                            ),
                        );
                    }
                },
            }
            if elapsed.longer_than(bound) {
                cx.fail(
                    cat5(
                        "the cancelled command took ",
                        shown_span(elapsed).as_str(),
                        " to stop, past the fixture's ",
                        shown_span(bound).as_str(),
                        " bound; `cancel` did not reach the process",
                    ),
                );
            }
            assert(cx@ =~= cancel_outcome(*measured, elapsed, bound));
            cx
        },
    }
}

// ---------------------------------------------------------------------------
// Failure honesty
// ---------------------------------------------------------------------------

/// The plan: run a command that certainly fails.
pub open spec fn failing_plan(providers: Executors, fixture: ExecFixtureView) -> PlanView<DriveView> {
    match fixture.policy() {
        None => PlanView::Done(no_root()),
        Some(policy) => if !providers.shell {
            PlanView::Done(no_leg("shell"@))
        } else {
            PlanView::Ask(DriveView { command: FAILING_COMMAND@, policy, marker: None })
        },
    }
}

/// Plan the failing command.
pub fn plan_failing(providers: Executors, fixture: &ExecFixture) -> (r: Plan<Drive>)
    ensures
        r@ == failing_plan(providers, fixture@),
{
    match fixture.policy() {
        None => Plan::Done(no_root_cx()),
        Some(policy) => {
            if !providers.shell {
                Plan::Done(no_leg_cx("shell"))
            } else {
                Plan::Ask(Drive { command: owned(FAILING_COMMAND), policy, marker: None })
            }
        },
    }
}

/// Whether a code belongs to the execution world.
pub open spec fn is_exec_code(code: ErrorCode) -> bool {
    ||| code == ErrorCode::SpawnFailed
    ||| code == ErrorCode::ExecCancelled
    ||| code == ErrorCode::SandboxDenied
    ||| code == ErrorCode::IoError
    ||| code == ErrorCode::TooLarge
    ||| code == ErrorCode::Aborted
}

/// The outcome of the failing command.
pub open spec fn failing_outcome(outcome: RanView) -> CxView {
    match outcome {
        RanView::Output(out) => failed(
            seq![
                "`"@ + FAILING_COMMAND@ + "` returned Ok("@ + debug_text(out)
                    + "); a nonzero exit must route as an error, and output that only exists inside a success value is fabricated"@,
            ],
        ),
        RanView::Failed(code, message) => {
            let found = failed(
                finding(
                    !is_exec_code(code),
                    "`"@ + FAILING_COMMAND@ + "` failed with `"@ + code.spelling()
                        + "`; a command failure must carry an execution-world code so callers routing on exec failures see it ("@
                        + message + ")"@,
                ),
            );
            if occurs(message, "failing-on-purpose"@) {
                found
            } else {
                found.and_skipped(
                    "failure message did not echo the command's own output; capture policy is the provider's choice ("@
                        + debug_text(message) + ")"@,
                )
            }
        },
        RanView::Panicked => failed(seq!["a failing command panicked the executor"@]),
    }
}

/// A failing command surfaces as an error with an execution-world code, never
/// as fabricated output.
pub fn failing_command_is_typed_error(outcome: &Ran) -> (r: Cx)
    ensures
        r@ == failing_outcome(outcome@),
{
    match outcome {
        Ran::Output(out) => fail_text(
            cat5(
                "`",
                FAILING_COMMAND,
                "` returned Ok(",
                quoted(out.as_str()).as_str(),
                "); a nonzero exit must route as an error, and output that only exists inside a success value is fabricated",
            ),
        ),
        Ran::Failed(code, message) => {
            let mut cx = Cx::new();
            let routed = match code {
                ErrorCode::SpawnFailed => true,
                ErrorCode::ExecCancelled => true,
                ErrorCode::SandboxDenied => true,
                ErrorCode::IoError => true,
                ErrorCode::TooLarge => true,
                ErrorCode::Aborted => true,
                _ => false,
            };
            if !routed {
                cx.fail(
                    cat7(
                        "`",
                        FAILING_COMMAND,
                        "` failed with `",
                        code.as_str(),
                        "`; a command failure must carry an execution-world code so callers routing on exec failures see it (",
                        message.as_str(),
                        ")",
                    ),
                );
            }
            if !contains(message.as_str(), "failing-on-purpose") {
                cx.skip(
                    cat3(
                        "failure message did not echo the command's own output; capture policy is the provider's choice (",
                        quoted(message.as_str()).as_str(),
                        ")",
                    ),
                );
            }
            assert(cx@ =~= failing_outcome(outcome@));
            cx
        },
        Ran::Panicked => fail_cx("a failing command panicked the executor"),
    }
}

// ---------------------------------------------------------------------------
// Laws
// ---------------------------------------------------------------------------

/// Whether a plan ended without a failure.
pub open spec fn plan_skips<V>(plan: PlanView<V>) -> bool {
    plan matches PlanView::Done(cx) && cx.failures.len() == 0 && cx.skips.len() > 0
}

/// A bundle with no legs skips every case: it is owed nothing, and failed by
/// nothing.
pub proof fn law_a_bundle_with_no_legs_skips_everything(fixture: ExecFixtureView)
    ensures
        ({
            let none = Executors { shell: false, sandbox: false, subprocess: false, shell_over: false };
            &&& plan_skips(argv_plan(none, fixture))
            &&& plan_skips(reason_plan(none, fixture))
            &&& plan_skips(refusal_plan(none, fixture))
            &&& plan_skips(routing_plan(none, fixture))
            &&& plan_skips(injected_plan(none, fixture))
            &&& plan_skips(denial_plan(none, fixture))
            &&& plan_skips(confined_plan(none, fixture))
            &&& plan_skips(cancel_plan(none, fixture))
            &&& plan_skips(failing_plan(none, fixture))
        }),
{
}

/// A fixture without a scratch root skips every case.
pub proof fn law_a_fixture_without_a_root_skips_everything(
    providers: Executors,
    fixture: ExecFixtureView,
)
    requires
        fixture.root is None,
    ensures
        plan_skips(argv_plan(providers, fixture)),
        plan_skips(reason_plan(providers, fixture)),
        plan_skips(refusal_plan(providers, fixture)),
        plan_skips(routing_plan(providers, fixture)),
        plan_skips(injected_plan(providers, fixture)),
        plan_skips(denial_plan(providers, fixture)),
        plan_skips(confined_plan(providers, fixture)),
        plan_skips(cancel_plan(providers, fixture)),
        plan_skips(failing_plan(providers, fixture)),
{
}

/// Once both legs were reached, the handover is clean exactly when the sandbox
/// saw the argv that spawned, the command verbatim, and the policy's root.
pub proof fn law_argv_handover(
    outcome: RanView,
    argv: Seq<Seq<char>>,
    spawn: SpawnView,
    root: Seq<char>,
    shell_over: bool,
)
    requires
        !(outcome is Panicked),
    ensures
        argv_outcome(outcome, Some(argv), Some(spawn), root, shell_over).failures.len() == 0 <==> (
        argv == spawn.argv && last_arg(argv) == Some(EXACT_COMMAND@) && spawn.cwd == Some(root)),
{
}

/// The routing case is clean exactly when both permitted commands ran and the
/// denied one was refused as `sandbox-denied` without running.
pub proof fn law_routing_follows_allowed(
    deny_mode: RanView,
    deny_mode_marker: bool,
    confined: RanView,
    confined_marker: bool,
    denied: RanView,
    denied_marker: bool,
)
    ensures
        routing_findings(
            deny_mode,
            deny_mode_marker,
            confined,
            confined_marker,
            denied,
            denied_marker,
        ).len() == 0 <==> {
            &&& deny_mode is Output && deny_mode_marker
            &&& confined is Output && confined_marker
            &&& denied matches RanView::Failed(code, _) && code == ErrorCode::SandboxDenied
            &&& !denied_marker
        },
{
}

/// A refusal passes the audit exactly when it is unconfined and says why.
pub proof fn law_refusal_audit(e: EnforcedView)
    ensures
        refusal_audit(e).len() == 0 <==> (!e.confined && !is_blank(e.reason)),
{
}

/// A measured cancellation passes exactly when the wait ended in
/// `exec-cancelled` within the bound.
pub proof fn law_cancellation_is_reported_as_cancellation(
    r: Result<String, SeamError>,
    elapsed: Span,
    bound: Span,
)
    ensures
        cancel_outcome(Measured::Waited(r), elapsed, bound).failures.len() == 0 <==> {
            &&& r matches Err(e) && e.code == ErrorCode::ExecCancelled
            &&& elapsed.nanoseconds() <= bound.nanoseconds()
        },
{
}

/// A provider that keeps a child it was asked to release is failed, never
/// skipped; one that never got a child running is skipped, never failed.
pub proof fn law_hoarding_children_is_a_failure(elapsed: Span, bound: Span)
    ensures
        after_sentinel(Probe::Silent) matches PlanView::Done(cx) && cx.failures.len() == 1,
        plan_skips(after_sentinel(Probe::Refused)),
        plan_skips(after_sentinel(Probe::SilentButReleased)),
        after_quiet(Quiet::Stuck) matches PlanView::Done(cx) && cx.failures.len() == 1,
        plan_skips(after_quiet(Quiet::Rejected)),
        cancel_outcome(
            Measured::Unreached(RanUp::SpawnedButQuiet),
            elapsed,
            bound,
        ).failures.len() == 1,
        cancel_outcome(Measured::Unreached(RanUp::NeverSpawned), elapsed, bound).failures.len()
            == 0,
{
}

} // verus!
