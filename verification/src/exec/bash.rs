//! The shell: a command line becomes spawn coordinates, the sandbox sees them
//! exactly as they will spawn, and a refusal never spawns anything.

use vstd::prelude::*;

use crate::exec::sandbox::{decided, mode_of, LocalSandbox, ProbeView, RootProbe};
use crate::seam::error::{failure, outcome, ErrorCode, SeamError, SeamErrorView};
use crate::seam::exec::{
    bool_text, copy_pairs, pairs_view, shown_bool, ConfineHint, Confinement, ConfinementView,
    Enforced, EnforcedView, PolicyHome, PolicyHomeView, Sandbox, Spawn, SpawnHandle, SpawnView,
    Subprocess,
};
use crate::text::{
    cat, cat7, debug_text, debug_texts, owned, quoted, quoted_list, texts,
};

verus! {

/// The program the shell invokes.
pub const SHELL_PROGRAM: &'static str = "/bin/bash";

/// The exact argv a command line is spawned with.
pub open spec fn shell_argv(command: Seq<char>) -> Seq<Seq<char>> {
    seq![SHELL_PROGRAM@, "-c"@, command]
}

/// The exact argv a command line is spawned with.
pub fn argv_of(command: &str) -> (r: Vec<String>)
    ensures
        texts(r@) == shell_argv(command@),
{
    let mut argv: Vec<String> = Vec::new();
    argv.push(owned(SHELL_PROGRAM));
    argv.push(owned("-c"));
    argv.push(owned(command));
    assert(texts(argv@) =~= shell_argv(command@));
    argv
}

/// The refusal of a command: the mode that refused it, and the reason it gave.
pub open spec fn denial(e: EnforcedView, argv: Seq<Seq<char>>) -> SeamErrorView {
    failure(
        ErrorCode::SandboxDenied,
        "sandbox denied command: mode="@ + e.mode + " confined="@ + bool_text(e.confined)
            + " reason="@ + debug_text(e.reason) + (" argv="@ + debug_texts(argv)),
    )
}

/// What to spawn, once the sandbox has reported. A refusal spawns nothing; a
/// confined verdict travels with the coordinates, as the very policy it was
/// decided under.
pub open spec fn planned(e: EnforcedView, argv: Seq<Seq<char>>, policy: PolicyHomeView) -> Result<
    SpawnView,
    SeamErrorView,
> {
    if !e.allowed {
        Err(denial(e, argv))
    } else {
        Ok(
            SpawnView {
                argv,
                cwd: Some(policy.workspace_root),
                confine: if e.confined {
                    Some(
                        Some(
                            ConfinementView {
                                policy,
                                rlimit_as_bytes: None,
                                extra_env: Seq::empty(),
                            },
                        ),
                    )
                } else {
                    None
                },
            },
        )
    }
}

/// What to spawn, once the sandbox has reported.
pub fn plan(enforced: &Enforced, argv: Vec<String>, policy: &PolicyHome) -> (r: Result<
    Spawn,
    SeamError,
>)
    ensures
        outcome(r) == planned(enforced@, texts(argv@), policy@),
{
    if !enforced.allowed {
        let reason = quoted(enforced.reason.as_str());
        let args = quoted_list(&argv);
        let tail = cat(" argv=", args.as_str());
        return Err(
            SeamError::with(
                ErrorCode::SandboxDenied,
                cat7(
                    "sandbox denied command: mode=",
                    enforced.mode.as_str(),
                    " confined=",
                    shown_bool(enforced.confined),
                    " reason=",
                    reason.as_str(),
                    tail.as_str(),
                ),
            ),
        );
    }
    let confine = if enforced.confined {
        let none: Vec<(String, String)> = Vec::new();
        assert(pairs_view(none@) =~= Seq::empty());
        Some(
            ConfineHint::Confine(
                Confinement { policy: policy.copy(), rlimit_as_bytes: None, extra_env: none },
            ),
        )
    } else {
        None
    };
    Ok(Spawn { argv, cwd: Some(policy.workspace_root.clone()), confine })
}

/// The shell over a subprocess provider and a sandbox.
pub struct BashLocal<P, S> {
    /// What the coordinates are handed to.
    pub subprocess: P,
    /// What is consulted with the exact argv before the spawn.
    pub sandbox: S,
}

/// Whether the sandbox reported `r` on an argv.
pub open spec fn consulted<S: Sandbox>(
    sandbox: S,
    argv: Seq<Seq<char>>,
    policy: PolicyHome,
    r: Result<Enforced, SeamError>,
) -> bool {
    exists|a: Vec<String>|
        texts(a@) == argv && #[trigger] call_ensures(S::enforce, (&sandbox, &a, &policy), r)
}

/// Whether the provider answered `h` to spawning `spawn`.
pub open spec fn spawned<P: Subprocess>(
    subprocess: P,
    spawn: SpawnView,
    h: Result<P::Handle, SeamError>,
) -> bool {
    exists|s: Spawn| s@ == spawn && #[trigger] call_ensures(P::spawn, (&subprocess, &s), h)
}

/// What a run of the shell does next.
pub enum ShellCall<H> {
    /// Ask the sandbox about this argv.
    Consult(Vec<String>),
    /// Spawn these coordinates.
    Spawn(Spawn),
    /// Wait for the output of this process.
    Await(H),
    /// The run is over.
    Done(Result<String, SeamError>),
}

/// What a [`ShellCall`] says.
pub enum ShellCallView<H> {
    Consult(Seq<Seq<char>>),
    Spawn(SpawnView),
    Await(H),
    Done(Result<Seq<char>, SeamErrorView>),
}

impl<H> View for ShellCall<H> {
    type V = ShellCallView<H>;

    open spec fn view(&self) -> ShellCallView<H> {
        match *self {
            ShellCall::Consult(argv) => ShellCallView::Consult(texts(argv@)),
            ShellCall::Spawn(spawn) => ShellCallView::Spawn(spawn@),
            ShellCall::Await(handle) => ShellCallView::Await(handle),
            ShellCall::Done(r) => ShellCallView::Done(outcome(r)),
        }
    }
}

/// The answer to a [`ShellCall`].
pub enum ShellReply<H> {
    Consulted(Result<Enforced, SeamError>),
    Spawned(Result<H, SeamError>),
    Output(Result<String, SeamError>),
}

/// Where a run of the shell stands: the answer it waits for.
#[derive(Debug, Clone, Copy, PartialEq, Eq, Structural)]
pub enum ShellStage {
    /// The sandbox's report.
    Consulting,
    /// The process.
    Spawning,
    /// Its output.
    Awaiting,
}

impl ShellStage {
    /// How many answers are to come at most.
    pub open spec fn left(self) -> nat {
        match self {
            ShellStage::Consulting => 3,
            ShellStage::Spawning => 2,
            ShellStage::Awaiting => 1,
        }
    }
}

/// Whether a reply answers what a run waits for.
pub open spec fn awaited<H>(stage: ShellStage, reply: ShellReply<H>) -> bool {
    match stage {
        ShellStage::Consulting => reply is Consulted,
        ShellStage::Spawning => reply is Spawned,
        ShellStage::Awaiting => reply is Output,
    }
}

/// What follows an answer, and where the run then stands; `None` where it is over.
/// The sandbox is asked first, and nothing spawns that it did not allow.
pub open spec fn shell_moved<H>(
    command: Seq<char>,
    policy: PolicyHomeView,
    stage: ShellStage,
    reply: ShellReply<H>,
) -> (Option<ShellStage>, ShellCallView<H>) {
    match (stage, reply) {
        (ShellStage::Consulting, ShellReply::Consulted(Err(e))) => (
            None,
            ShellCallView::Done(Err(e@)),
        ),
        (ShellStage::Consulting, ShellReply::Consulted(Ok(enforced))) => match planned(
            enforced@,
            shell_argv(command),
            policy,
        ) {
            Err(e) => (None, ShellCallView::Done(Err(e))),
            Ok(spawn) => (Some(ShellStage::Spawning), ShellCallView::Spawn(spawn)),
        },
        (ShellStage::Spawning, ShellReply::Spawned(Err(e))) => (
            None,
            ShellCallView::Done(Err(e@)),
        ),
        (ShellStage::Spawning, ShellReply::Spawned(Ok(handle))) => (
            Some(ShellStage::Awaiting),
            ShellCallView::Await(handle),
        ),
        (ShellStage::Awaiting, ShellReply::Output(out)) => (None, ShellCallView::Done(outcome(out))),
        _ => arbitrary(),
    }
}

/// What follows an answer, and where the run then stands.
pub fn shell_step<H>(
    command: &str,
    policy: &PolicyHome,
    stage: ShellStage,
    reply: ShellReply<H>,
) -> (r: (Option<ShellStage>, ShellCall<H>))
    requires
        awaited(stage, reply),
    ensures
        (r.0, r.1@) == shell_moved(command@, policy@, stage, reply),
{
    match (stage, reply) {
        (ShellStage::Consulting, ShellReply::Consulted(Err(e))) => (None, ShellCall::Done(Err(e))),
        (ShellStage::Consulting, ShellReply::Consulted(Ok(enforced))) => match plan(
            &enforced,
            argv_of(command),
            policy,
        ) {
            Err(e) => (None, ShellCall::Done(Err(e))),
            Ok(spawn) => (Some(ShellStage::Spawning), ShellCall::Spawn(spawn)),
        },
        (ShellStage::Spawning, ShellReply::Spawned(Err(e))) => (None, ShellCall::Done(Err(e))),
        (ShellStage::Spawning, ShellReply::Spawned(Ok(handle))) => (
            Some(ShellStage::Awaiting),
            ShellCall::Await(handle),
        ),
        (ShellStage::Awaiting, ShellReply::Output(out)) => (None, ShellCall::Done(out)),
        _ => {
            assert(false);
            (None, ShellCall::Done(Ok(String::new())))
        },
    }
}

/// Whether a call is the one whose answer a run waits for.
pub open spec fn asked<H>(stage: ShellStage, call: ShellCallView<H>) -> bool {
    match stage {
        ShellStage::Consulting => call is Consult,
        ShellStage::Spawning => call is Spawn,
        ShellStage::Awaiting => call is Await,
    }
}

/// Whether `reply` answers `call`: the sandbox's report, the provider's process or
/// that process's output.
pub open spec fn shell_answers<P: Subprocess, S: Sandbox>(
    shell: BashLocal<P, S>,
    policy: PolicyHome,
    call: ShellCallView<P::Handle>,
    reply: ShellReply<P::Handle>,
) -> bool {
    match (call, reply) {
        (ShellCallView::Consult(argv), ShellReply::Consulted(r)) => consulted(
            shell.sandbox,
            argv,
            policy,
            r,
        ),
        (ShellCallView::Spawn(spawn), ShellReply::Spawned(h)) => spawned(
            shell.subprocess,
            spawn,
            h,
        ),
        (ShellCallView::Await(handle), ShellReply::Output(out)) => call_ensures(
            P::Handle::output,
            (&handle,),
            out,
        ),
        _ => false,
    }
}

/// Whether `replies` are the answers to the calls of a run from this point on, each
/// made after the answer before it, and `out` is what the run comes to.
pub open spec fn shell_runs<P: Subprocess, S: Sandbox>(
    shell: BashLocal<P, S>,
    command: Seq<char>,
    policy: PolicyHome,
    at: (Option<ShellStage>, ShellCallView<P::Handle>),
    replies: Seq<ShellReply<P::Handle>>,
    out: Result<Seq<char>, SeamErrorView>,
) -> bool
    decreases replies.len(),
{
    match at.0 {
        None => replies.len() == 0 && at.1 == ShellCallView::<P::Handle>::Done(out),
        Some(stage) => replies.len() > 0 && shell_answers(shell, policy, at.1, replies[0])
            && shell_runs(
            shell,
            command,
            policy,
            shell_moved(command, policy@, stage, replies[0]),
            replies.skip(1),
            out,
        ),
    }
}

impl<P: Subprocess, S: Sandbox> BashLocal<P, S> {
    /// Wire a shell over a subprocess and a sandbox provider.
    pub fn new(subprocess: P, sandbox: S) -> (r: BashLocal<P, S>)
        ensures
            r.subprocess == subprocess,
            r.sandbox == sandbox,
    {
        BashLocal { subprocess, sandbox }
    }

    /// The exact argv a command line will be spawned with.
    pub fn argv_for(&self, command: &str) -> (r: Vec<String>)
        ensures
            texts(r@) == shell_argv(command@),
    {
        argv_of(command)
    }

    /// Run a command line. The sandbox is consulted with the argv that spawns,
    /// before anything spawns; where it refuses, nothing does.
    pub fn exec(&self, command: &str, policy: &PolicyHome) -> (r: Result<String, SeamError>)
        ensures
            exists|replies: Seq<ShellReply<P::Handle>>| #[trigger]
                shell_runs(
                    *self,
                    command@,
                    *policy,
                    (
                        Some(ShellStage::Consulting),
                        ShellCallView::Consult(shell_argv(command@)),
                    ),
                    replies,
                    outcome(r),
                ),
    {
        let argv = self.argv_for(command);
        self.drive(command, policy, ShellStage::Consulting, ShellCall::Consult(argv))
    }

    /// Make the calls of a run, in turn, from this one on.
    fn drive(
        &self,
        command: &str,
        policy: &PolicyHome,
        stage: ShellStage,
        call: ShellCall<P::Handle>,
    ) -> (r: Result<String, SeamError>)
        requires
            asked(stage, call@),
        ensures
            exists|replies: Seq<ShellReply<P::Handle>>| #[trigger]
                shell_runs(*self, command@, *policy, (Some(stage), call@), replies, outcome(r)),
        decreases stage.left(),
    {
        let ghost at = call@;
        let reply = match call {
            ShellCall::Consult(argv) => {
                let report = self.sandbox.enforce(&argv, policy);
                assert(call_ensures(S::enforce, (&self.sandbox, &argv, policy), report));
                ShellReply::Consulted(report)
            },
            ShellCall::Spawn(spawn) => {
                let handle = self.subprocess.spawn(&spawn);
                assert(call_ensures(P::spawn, (&self.subprocess, &spawn), handle));
                ShellReply::Spawned(handle)
            },
            ShellCall::Await(handle) => {
                let out = handle.output();
                assert(call_ensures(P::Handle::output, (&handle,), out));
                ShellReply::Output(out)
            },
            ShellCall::Done(r) => {
                assert(false);
                return r;
            },
        };
        let ghost answer = reply;
        let (left, next) = shell_step(command, policy, stage, reply);
        let ghost then = shell_moved(command@, policy@, stage, answer);
        match left {
            Some(ahead) => {
                let r = self.drive(command, policy, ahead, next);
                proof {
                    let rest = choose|replies: Seq<ShellReply<P::Handle>>| #[trigger]
                        shell_runs(*self, command@, *policy, then, replies, outcome(r));
                    let whole = seq![answer] + rest;
                    assert(whole.skip(1) =~= rest);
                    assert(shell_runs(
                        *self,
                        command@,
                        *policy,
                        (Some(stage), at),
                        whole,
                        outcome(r),
                    ));
                }
                r
            },
            None => match next {
                ShellCall::Done(r) => {
                    proof {
                        let whole = seq![answer];
                        assert(whole.skip(1) =~= Seq::empty());
                        assert(shell_runs(
                            *self,
                            command@,
                            *policy,
                            then,
                            whole.skip(1),
                            outcome(r),
                        ));
                        assert(shell_runs(
                            *self,
                            command@,
                            *policy,
                            (Some(stage), at),
                            whole,
                            outcome(r),
                        ));
                    }
                    r
                },
                _ => {
                    assert(false);
                    Ok(String::new())
                },
            },
        }
    }
}

/// The report the local sandbox would give a command, without running it.
pub fn preview_decision(command: &str, policy: &PolicyHome, probe: &RootProbe) -> (r: Enforced)
    ensures
        r@ == decided(
            mode_of(policy@),
            shell_argv(command@),
            policy@.workspace_root,
            probe@,
        ),
{
    let argv = argv_of(command);
    LocalSandbox::new().enforce_verdict(&argv, policy, probe)
}

// ---------------------------------------------------------------------------
// The confined spawner
// ---------------------------------------------------------------------------

/// Where a spawn goes.
pub enum Route {
    /// Straight to the plain subprocess provider.
    Plain,
    /// To the thread that forks confined children, with this confinement.
    Confined(Confinement),
    /// Nowhere.
    Refused(SeamError),
}

/// What a [`Route`] says.
pub enum RouteView {
    Plain,
    Confined(ConfinementView),
    Refused(SeamErrorView),
}

impl View for Route {
    type V = RouteView;

    open spec fn view(&self) -> RouteView {
        match self {
            Route::Plain => RouteView::Plain,
            Route::Confined(c) => RouteView::Confined(c@),
            Route::Refused(e) => RouteView::Refused(e@),
        }
    }
}

/// Where a spawn goes: without a hint on the plain path; with a hint that can be
/// read to the confined one, its variables behind the spawner's own; with any
/// other hint nowhere.
pub open spec fn routed(extra: Seq<(Seq<char>, Seq<char>)>, spawn: SpawnView) -> RouteView {
    match spawn.confine {
        None => RouteView::Plain,
        Some(Some(c)) => RouteView::Confined(
            ConfinementView { extra_env: extra + c.extra_env, ..c },
        ),
        Some(None) => RouteView::Refused(
            failure(
                ErrorCode::SandboxDenied,
                "confined spawn carries an unreadable confinement hint; refusing rather than running a confined verdict unconfined"@,
            ),
        ),
    }
}

/// The confined-spawn boundary: what every confined child is given.
pub struct ConfinedSpawner {
    extra: Vec<(String, String)>,
}

impl ConfinedSpawner {
    /// The variables every confined child is given before the scrub.
    pub closed spec fn extras(&self) -> Seq<(Seq<char>, Seq<char>)> {
        pairs_view(self.extra@)
    }

    /// A spawner that adds no variables.
    pub fn new() -> (r: ConfinedSpawner)
        ensures
            r.extras() == Seq::<(Seq<char>, Seq<char>)>::empty(),
    {
        let r = ConfinedSpawner { extra: Vec::new() };
        assert(r.extras() =~= Seq::<(Seq<char>, Seq<char>)>::empty());
        r
    }

    /// Add a variable that confined children inherit before the scrub.
    pub fn with_extra_env(self, name: String, value: String) -> (r: ConfinedSpawner)
        ensures
            r.extras() == self.extras().push((name@, value@)),
    {
        let mut next = self;
        next.extra.push((name, value));
        assert(next.extras() =~= self.extras().push((name@, value@)));
        next
    }

    /// Where a spawn goes.
    pub fn route(&self, spawn: &Spawn) -> (r: Route)
        ensures
            r@ == routed(self.extras(), spawn@),
    {
        match &spawn.confine {
            None => Route::Plain,
            Some(ConfineHint::Foreign) => Route::Refused(
                SeamError::new(
                    ErrorCode::SandboxDenied,
                    "confined spawn carries an unreadable confinement hint; refusing rather than running a confined verdict unconfined",
                ),
            ),
            Some(ConfineHint::Confine(c)) => {
                let mut extra_env = copy_pairs(&self.extra);
                let mut more = copy_pairs(&c.extra_env);
                extra_env.append(&mut more);
                assert(pairs_view(extra_env@) =~= self.extras() + pairs_view(c.extra_env@));
                Route::Confined(
                    Confinement {
                        policy: c.policy.copy(),
                        rlimit_as_bytes: c.rlimit_as_bytes,
                        extra_env,
                    },
                )
            },
        }
    }

    /// The failure of a spawn whose thread is gone.
    pub fn exited(&self) -> (r: SeamError)
        ensures
            r@ == failure(ErrorCode::SpawnFailed, "confined spawner exited"@),
    {
        SeamError::new(ErrorCode::SpawnFailed, "confined spawner exited")
    }
}

// ---------------------------------------------------------------------------
// Laws
// ---------------------------------------------------------------------------

/// The sandbox sees the argv that spawns: whatever it reports, what is planned
/// carries that very argv and runs in the policy's root.
pub proof fn law_what_spawns_is_what_the_sandbox_saw(
    e: EnforcedView,
    command: Seq<char>,
    policy: PolicyHomeView,
)
    ensures
        planned(e, shell_argv(command), policy) matches Ok(spawn) ==> spawn.argv == shell_argv(
            command,
        ) && spawn.cwd == Some(policy.workspace_root),
{
}

/// A refused command is reported as sandbox-denied and nothing is planned for
/// it.
pub proof fn law_a_refused_command_never_spawns(
    e: EnforcedView,
    argv: Seq<Seq<char>>,
    policy: PolicyHomeView,
)
    requires
        !e.allowed,
    ensures
        planned(e, argv, policy) matches Err(x) && x.code == ErrorCode::SandboxDenied,
{
}

/// A run that the sandbox refused, or failed to decide, is over: nothing is spawned
/// and nothing awaited, whatever the providers would answer.
pub proof fn law_a_refusal_ends_the_run<H>(
    command: Seq<char>,
    policy: PolicyHomeView,
    report: Result<Enforced, SeamError>,
)
    requires
        report matches Ok(enforced) ==> !enforced@.allowed,
    ensures
        shell_moved(
            command,
            policy,
            ShellStage::Consulting,
            ShellReply::<H>::Consulted(report),
        ).0 is None,
        shell_moved(
            command,
            policy,
            ShellStage::Consulting,
            ShellReply::<H>::Consulted(report),
        ).1 is Done,
{
}

/// A run goes forward: each answer leaves fewer to come, and what is asked for next
/// is what it then waits for.
pub proof fn law_a_shell_run_ends<H>(
    command: Seq<char>,
    policy: PolicyHomeView,
    stage: ShellStage,
    reply: ShellReply<H>,
)
    requires
        awaited(stage, reply),
    ensures
        match shell_moved(command, policy, stage, reply) {
            (Some(next), call) => next.left() < stage.left() && asked(next, call),
            (None, call) => call is Done,
        },
{
}

/// A confined verdict never takes the plain path, and an unconfined one always
/// does: the root it is confined to is the root the verdict was decided under.
pub proof fn law_a_confined_verdict_is_spawned_confined(
    e: EnforcedView,
    argv: Seq<Seq<char>>,
    policy: PolicyHomeView,
    extra: Seq<(Seq<char>, Seq<char>)>,
)
    requires
        e.allowed,
    ensures
        planned(e, argv, policy) matches Ok(spawn) && match routed(extra, spawn) {
            RouteView::Plain => !e.confined,
            RouteView::Confined(c) => e.confined && c.policy == policy && c.extra_env == extra,
            RouteView::Refused(_) => false,
        },
{
    assert(extra + Seq::<(Seq<char>, Seq<char>)>::empty() =~= extra);
}

/// A hint that cannot be read is refused, never run on the plain path.
pub proof fn law_an_unreadable_hint_is_refused(
    extra: Seq<(Seq<char>, Seq<char>)>,
    spawn: SpawnView,
)
    requires
        spawn.confine == Some(None::<ConfinementView>),
    ensures
        routed(extra, spawn) matches RouteView::Refused(e) && e.code == ErrorCode::SandboxDenied,
{
}

/// What the local sandbox refuses never spawns, and the refusal carries its
/// mode.
pub proof fn law_local_refusals_never_spawn(
    command: Seq<char>,
    policy: PolicyHomeView,
    probe: ProbeView,
)
    requires
        policy.default_confined,
        !(probe is Canonical),
    ensures
        planned(
            decided(mode_of(policy), shell_argv(command), policy.workspace_root, probe),
            shell_argv(command),
            policy,
        ) matches Err(e) && e.code == ErrorCode::SandboxDenied,
{
}

} // verus!
