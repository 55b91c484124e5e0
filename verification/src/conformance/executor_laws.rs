//! When an execution world passes: each case of the suite, in terms of the answers its
//! legs gave.

use vstd::prelude::*;

use crate::conformance::executor_run::{moved, started, ActionView, EventView, StageView};
use crate::conformance::executor_suite::{
    first_line, probed, ConsultView, DriveView, ExecFixtureView, Executors, Measured, Probe,
    ProbeEvent, ProbeMove, Quiet, RanUp, RanView, Span, Spawned, VerdictView, CANCEL_SENTINEL,
    EXACT_COMMAND, FAILING_COMMAND,
};
use crate::conformance::report::CxView;
use crate::seam::error::ErrorCode;
use crate::seam::exec::{PolicyHomeView, SpawnView};
use crate::text::{decimal_text, is_space, occurs, occurs_at, trimmed};

verus! {

/// Whether the case is over with nothing failed and nothing left out.
pub open spec fn passes(a: ActionView) -> bool {
    a matches ActionView::Done { violations, skips } && violations.len() == 0 && skips.len() == 0
}

/// Whether the case is over with something failed.
pub open spec fn fails(a: ActionView) -> bool {
    a matches ActionView::Done { violations, .. } && violations.len() > 0
}

/// Whether the case is over with nothing failed but something left out.
pub open spec fn skips(a: ActionView) -> bool {
    a matches ActionView::Done { violations, skips } && violations.len() == 0 && skips.len() > 0
}

/// Whether a text holds anything besides white space.
pub open spec fn says_something(s: Seq<char>) -> bool {
    exists|i: int| 0 <= i < s.len() && !is_space(#[trigger] s[i])
}

/// Whether a run was refused by the sandbox.
pub open spec fn refused(ran: RanView) -> bool {
    ran matches RanView::Failed(code, _) && code == ErrorCode::SandboxDenied
}

/// Every failure becomes a violation of its case, in order, and nothing else does.
pub proof fn law_each_failure_is_a_violation(cx: CxView, case: Seq<char>)
    ensures
        cx.violations(case).len() == cx.failures.len(),
        forall|i: int|
            0 <= i < cx.failures.len() ==> (#[trigger] cx.violations(case)[i]).case == case
                && cx.violations(case)[i].detail == cx.failures[i],
{
}

// ---------------------------------------------------------------------------
// What a case needs
// ---------------------------------------------------------------------------

/// A case is put to a provider exactly where there is a root to run it under and the
/// legs it is about are there; otherwise it is skipped, never failed.
pub proof fn law_a_case_needs_its_legs(p: Executors, f: ExecFixtureView)
    ensures
        ({
            let rooted = f.root is Some;
            let put = |case: Seq<char>, owed: bool|
                {
                    let a = started(case, p, f).1;
                    &&& !(a is Done) <==> owed
                    &&& !owed ==> skips(a)
                };
            &&& put("sandbox_sees_exact_argv"@, rooted && p.shell && p.sandbox && p.subprocess)
            &&& put("enforced_reason_is_never_blank"@, rooted && p.sandbox)
            &&& put("refusal_is_never_reported_as_confined"@, rooted && p.sandbox)
            &&& put("consumer_routes_on_allowed"@, rooted && p.shell && p.subprocess)
            &&& put("injected_deny_reaches_shell"@, rooted && p.shell && p.sandbox && p.subprocess)
            &&& put("denied_command_never_runs"@, rooted && p.shell && p.sandbox && p.subprocess)
            &&& put("confined_run_is_actually_confined"@, rooted && p.shell && f.confined)
            &&& put("cancellation_is_honoured"@, rooted && p.subprocess)
            &&& put("failing_command_is_typed_error"@, rooted && p.shell)
        }),
{
    lemma_case_names();
}

/// The names of the cases tell them apart.
proof fn lemma_case_names()
    ensures
        "enforced_reason_is_never_blank"@ != "sandbox_sees_exact_argv"@,
        "refusal_is_never_reported_as_confined"@ != "sandbox_sees_exact_argv"@,
        "refusal_is_never_reported_as_confined"@ != "enforced_reason_is_never_blank"@,
        "consumer_routes_on_allowed"@ != "sandbox_sees_exact_argv"@,
        "consumer_routes_on_allowed"@ != "enforced_reason_is_never_blank"@,
        "consumer_routes_on_allowed"@ != "refusal_is_never_reported_as_confined"@,
        "injected_deny_reaches_shell"@ != "sandbox_sees_exact_argv"@,
        "injected_deny_reaches_shell"@ != "enforced_reason_is_never_blank"@,
        "injected_deny_reaches_shell"@ != "refusal_is_never_reported_as_confined"@,
        "injected_deny_reaches_shell"@ != "consumer_routes_on_allowed"@,
        "denied_command_never_runs"@ != "sandbox_sees_exact_argv"@,
        "denied_command_never_runs"@ != "enforced_reason_is_never_blank"@,
        "denied_command_never_runs"@ != "refusal_is_never_reported_as_confined"@,
        "denied_command_never_runs"@ != "consumer_routes_on_allowed"@,
        "denied_command_never_runs"@ != "injected_deny_reaches_shell"@,
        "confined_run_is_actually_confined"@ != "sandbox_sees_exact_argv"@,
        "confined_run_is_actually_confined"@ != "enforced_reason_is_never_blank"@,
        "confined_run_is_actually_confined"@ != "refusal_is_never_reported_as_confined"@,
        "confined_run_is_actually_confined"@ != "consumer_routes_on_allowed"@,
        "confined_run_is_actually_confined"@ != "injected_deny_reaches_shell"@,
        "confined_run_is_actually_confined"@ != "denied_command_never_runs"@,
        "cancellation_is_honoured"@ != "sandbox_sees_exact_argv"@,
        "cancellation_is_honoured"@ != "enforced_reason_is_never_blank"@,
        "cancellation_is_honoured"@ != "refusal_is_never_reported_as_confined"@,
        "cancellation_is_honoured"@ != "consumer_routes_on_allowed"@,
        "cancellation_is_honoured"@ != "injected_deny_reaches_shell"@,
        "cancellation_is_honoured"@ != "denied_command_never_runs"@,
        "cancellation_is_honoured"@ != "confined_run_is_actually_confined"@,
        "failing_command_is_typed_error"@ != "sandbox_sees_exact_argv"@,
        "failing_command_is_typed_error"@ != "enforced_reason_is_never_blank"@,
        "failing_command_is_typed_error"@ != "refusal_is_never_reported_as_confined"@,
        "failing_command_is_typed_error"@ != "consumer_routes_on_allowed"@,
        "failing_command_is_typed_error"@ != "injected_deny_reaches_shell"@,
        "failing_command_is_typed_error"@ != "denied_command_never_runs"@,
        "failing_command_is_typed_error"@ != "confined_run_is_actually_confined"@,
        "failing_command_is_typed_error"@ != "cancellation_is_honoured"@,
{
    reveal_strlit("sandbox_sees_exact_argv");
    reveal_strlit("enforced_reason_is_never_blank");
    reveal_strlit("refusal_is_never_reported_as_confined");
    reveal_strlit("consumer_routes_on_allowed");
    reveal_strlit("injected_deny_reaches_shell");
    reveal_strlit("denied_command_never_runs");
    reveal_strlit("confined_run_is_actually_confined");
    reveal_strlit("cancellation_is_honoured");
    reveal_strlit("failing_command_is_typed_error");
    let a = "sandbox_sees_exact_argv"@;
    let b = "enforced_reason_is_never_blank"@;
    let c = "refusal_is_never_reported_as_confined"@;
    let d = "consumer_routes_on_allowed"@;
    let e = "injected_deny_reaches_shell"@;
    let g = "denied_command_never_runs"@;
    let h = "confined_run_is_actually_confined"@;
    let i = "cancellation_is_honoured"@;
    let j = "failing_command_is_typed_error"@;
    assert(a[0] == 's' && b[0] == 'e' && c[0] == 'r' && d[0] == 'c' && e[0] == 'i' && g[0] == 'd'
        && h[0] == 'c' && i[0] == 'c' && j[0] == 'f');
    assert(d[3] == 's' && h[3] == 'f' && i[3] == 'c');
}

/// Whether a path is an entry of a directory: the directory in front, then a separator
/// where there is none yet, then a name without one.
pub open spec fn entry_of(path: Seq<char>, dir: Seq<char>) -> bool {
    exists|name: Seq<char>|
        #![trigger dir + name]
        name.len() > 0 && !name.contains('/') && (path == dir + name && dir.len() > 0 && dir.last()
            == '/' || path == dir + name && dir.len() == 0 || path == dir + seq!['/'] + name
            && dir.len() > 0 && dir.last() != '/')
}

/// What the shell is asked to run: the awkward command as it stands, the failing
/// command as it stands, or a command that names its marker, each under the fixture's
/// own root.
pub proof fn law_what_the_shell_is_asked_to_run(p: Executors, f: ExecFixtureView, root: Seq<char>)
    requires
        f.root == Some(root),
        p.shell,
        p.sandbox,
        p.subprocess,
    ensures
        started("sandbox_sees_exact_argv"@, p, f).1 matches ActionView::RunRecorded(drive)
            && drive.command == EXACT_COMMAND@ && drive.policy == (PolicyHomeView {
            workspace_root: root,
            default_confined: f.confined,
        }) && drive.marker is None,
        started("sandbox_sees_exact_argv"@, p, f).0 == (StageView::Handover { root }),
        started("failing_command_is_typed_error"@, p, f).1 matches ActionView::Run {
            drive,
            installed,
        } && drive.command == FAILING_COMMAND@ && drive.policy.workspace_root == root
            && installed is None,
        started("consumer_routes_on_allowed"@, p, f).1 matches ActionView::Run { drive, .. }
            && drive.marker is Some && occurs(drive.command, drive.marker->Some_0)
            && entry_of(drive.marker->Some_0, root) && drive.policy == (PolicyHomeView {
            workspace_root: root,
            default_confined: f.confined,
        }),
        started("injected_deny_reaches_shell"@, p, f).1 matches ActionView::RunJudged {
            drive,
            ..
        } && drive.marker is Some && occurs(drive.command, drive.marker->Some_0)
            && entry_of(drive.marker->Some_0, root) && drive.policy == (PolicyHomeView {
            workspace_root: root,
            default_confined: f.confined,
        }),
        started("denied_command_never_runs"@, p, f).1 matches ActionView::Consult {
            consult,
            installed,
        } && installed is None && consult.policy.default_confined && entry_of(
            consult.policy.workspace_root,
            root,
        ) && (started("denied_command_never_runs"@, p, f).0 matches StageView::Denial { drive }
            && drive.policy == consult.policy && consult.argv.len() == 3 && consult.argv[2]
            == drive.command && drive.marker is Some && occurs(
            drive.command,
            drive.marker->Some_0,
        ) && entry_of(drive.marker->Some_0, root)),
{
    lemma_case_names();
    lemma_marker(root, "routes-on-allowed"@);
    lemma_marker(root, "injected-deny"@);
    lemma_marker(root, "denied"@);
    lemma_vanished(root);
}

proof fn lemma_marker(root: Seq<char>, case: Seq<char>)
    requires
        case == "routes-on-allowed"@ || case == "injected-deny"@ || case == "denied"@,
    ensures
        ({
            let path = crate::conformance::executor_suite::marker_path(root, case);
            &&& entry_of(path, root)
            &&& occurs(crate::conformance::executor_suite::touch_line(path), path)
        }),
{
    reveal_strlit("routes-on-allowed");
    reveal_strlit("injected-deny");
    reveal_strlit("denied");
    reveal_strlit("harnless-conformance-");
    reveal_strlit("-must-not-exist");
    reveal_strlit("/");
    reveal_strlit("touch '");
    reveal_strlit("'");
    let name = "harnless-conformance-"@ + case + "-must-not-exist"@;
    assert("/"@ =~= seq!['/']);
    assert(!name.contains('/'));
    let path = crate::conformance::executor_suite::marker_path(root, case);
    assert(dir_entry(path, root, name));
    let line = crate::conformance::executor_suite::touch_line(path);
    assert(line.subrange(7, (7 + path.len()) as int) =~= path);
    assert(occurs_at(line, path, 7));
}

proof fn lemma_vanished(root: Seq<char>)
    ensures
        entry_of(crate::conformance::executor_suite::vanished(root).workspace_root, root),
{
    reveal_strlit("harnless-conformance-vanished-root");
    reveal_strlit("/");
    assert("/"@ =~= seq!['/']);
    let name = "harnless-conformance-vanished-root"@;
    assert(!name.contains('/'));
    let path = crate::conformance::executor_suite::vanished(root).workspace_root;
    assert(dir_entry(path, root, name));
}

/// Whether a path is the entry with this name; it then is an entry.
spec fn dir_entry(path: Seq<char>, dir: Seq<char>, name: Seq<char>) -> bool {
    &&& name.len() > 0
    &&& !name.contains('/')
    &&& (dir + name).len() > 0
    &&& path == if dir.len() > 0 && dir.last() != '/' {
        dir + seq!['/'] + name
    } else {
        dir + name
    }
}

// ---------------------------------------------------------------------------
// Consultations
// ---------------------------------------------------------------------------

/// The handover passes exactly where the sandbox was asked about the very argv that was
/// spawned, with the caller's command as its last element, under the policy's root. It
/// fails where anything was spawned otherwise, and where nothing could be observed.
pub proof fn law_the_sandbox_sees_what_is_spawned(
    case: Seq<char>,
    p: Executors,
    f: ExecFixtureView,
    root: Seq<char>,
    ran: RanView,
    consulted: Option<Seq<Seq<char>>>,
    handed: Option<SpawnView>,
)
    ensures
        ({
            let a = moved(
                case,
                p,
                f,
                StageView::Handover { root },
                EventView::Recorded { ran, consulted, handed },
            ).1;
            let same = consulted is Some && handed is Some && consulted->Some_0
                == handed->Some_0.argv && consulted->Some_0.len() > 0 && consulted->Some_0.last()
                == EXACT_COMMAND@ && handed->Some_0.cwd == Some(root);
            &&& a is Done
            &&& passes(a) <==> !(ran is Panicked) && same
            &&& skips(a) <==> !(ran is Panicked) && handed is None && (consulted is Some
                || p.shell_over)
            &&& fails(a) <==> !passes(a) && !skips(a)
        }),
{
}

/// A report fails exactly where the sandbox panicked over a policy, or decided without
/// a reason or without a mode; it is skipped where nothing failed and a policy was left
/// undecided.
pub proof fn law_reports_explain_themselves(
    case: Seq<char>,
    p: Executors,
    f: ExecFixtureView,
    confined: ConsultView,
    first: VerdictView,
    second: VerdictView,
)
    ensures
        ({
            let next = moved(case, p, f, StageView::Permitted { confined }, EventView::Verdict(first));
            let a = moved(case, p, f, next.0, EventView::Verdict(second)).1;
            let sound = |v: VerdictView|
                v matches VerdictView::Decided(e) && says_something(e.reason) && says_something(
                    e.mode,
                );
            &&& next.1 == (ActionView::Consult { consult: confined, installed: None })
            &&& passes(a) <==> sound(first) && sound(second)
            &&& fails(a) <==> !(first is Failed || sound(first)) || !(second is Failed || sound(
                second,
            ))
            &&& skips(a) <==> !passes(a) && !fails(a)
        }),
{
}

/// Both policies that are asked about name the fixture's root, one confined and one
/// not.
pub proof fn law_both_policies_are_asked_about(p: Executors, f: ExecFixtureView, root: Seq<char>)
    requires
        f.root == Some(root),
        p.sandbox,
    ensures
        started("enforced_reason_is_never_blank"@, p, f) matches (
            StageView::Permitted { confined },
            ActionView::Consult { consult, installed },
        ) && installed is None && consult.argv == confined.argv && consult.policy == (
        PolicyHomeView { workspace_root: root, default_confined: false }) && confined.policy == (
        PolicyHomeView { workspace_root: root, default_confined: true }),
{
    lemma_case_names();
}

/// A refusal is sound exactly where it does not claim confinement and says why. One
/// that comes by itself is judged at once; otherwise a refusal is installed and asked
/// for, under the fixture's own policy, and a sandbox that will not refuse even then
/// fails.
pub proof fn law_a_refusal_confines_nothing(
    case: Seq<char>,
    p: Executors,
    f: ExecFixtureView,
    policy: PolicyHomeView,
    natural: VerdictView,
    answer: VerdictView,
)
    ensures
        ({
            let refuses = |v: VerdictView| v matches VerdictView::Decided(e) && !e.allowed;
            let sound = |v: VerdictView|
                v matches VerdictView::Decided(e) && !e.allowed && !e.confined && says_something(
                    e.reason,
                );
            let next = moved(case, p, f, StageView::Natural { policy }, EventView::Verdict(natural));
            let last = moved(case, p, f, StageView::InstalledRefusal, EventView::Verdict(answer)).1;
            &&& refuses(natural) ==> (passes(next.1) <==> sound(natural)) && (fails(next.1) <==> !sound(
                natural,
            ))
            &&& !refuses(natural) ==> next.0 == StageView::InstalledRefusal && (
            next.1 matches ActionView::Consult { consult, installed: Some(v) } && consult.policy
                == policy && !v.allowed && !v.confined)
            &&& passes(last) <==> sound(answer)
            &&& fails(last) <==> !sound(answer)
        }),
{
}

// ---------------------------------------------------------------------------
// Verdicts that are installed
// ---------------------------------------------------------------------------

/// The consumer is judged by three runs of one command, under verdicts whose other
/// fields contradict `allowed`. It passes exactly where both permitted runs succeeded
/// and left the marker, and the denied one was refused and left none.
pub proof fn law_only_allowed_decides(
    case: Seq<char>,
    p: Executors,
    f: ExecFixtureView,
    drive: DriveView,
    first: RanView,
    first_marker: bool,
    second: RanView,
    second_marker: bool,
    third: RanView,
    third_marker: bool,
)
    ensures
        ({
            let one = moved(
                case,
                p,
                f,
                StageView::RouteFirst { drive },
                EventView::Ran { ran: first, marker: first_marker },
            );
            let two = moved(
                case,
                p,
                f,
                one.0,
                EventView::Ran { ran: second, marker: second_marker },
            );
            let a = moved(
                case,
                p,
                f,
                two.0,
                EventView::Ran { ran: third, marker: third_marker },
            ).1;
            &&& one.1 matches ActionView::Run { drive: again, installed: Some(v) } && again == drive
                && v.allowed && v.confined
            &&& two.1 matches ActionView::Run { drive: again, installed: Some(v) } && again == drive
                && !v.allowed && v.confined
            &&& passes(a) <==> first is Output && first_marker && second is Output && second_marker
                && refused(third) && !third_marker
            &&& fails(a) <==> !passes(a)
        }),
{
}

/// The first routed run is permitted, though not confined, under a mode that says deny.
pub proof fn law_the_first_routed_run_is_permitted(p: Executors, f: ExecFixtureView)
    requires
        f.root is Some,
        p.shell,
        p.subprocess,
    ensures
        started("consumer_routes_on_allowed"@, p, f) matches (
            StageView::RouteFirst { drive },
            ActionView::Run { drive: again, installed: Some(v) },
        ) && drive == again && v.allowed && !v.confined && occurs(v.mode, "deny"@),
{
    lemma_case_names();
    reveal_strlit("deny-all");
    reveal_strlit("deny");
    let mode = "deny-all"@;
    assert(mode.subrange(0, 4) =~= "deny"@);
    assert(occurs_at(mode, "deny"@, 0));
}

/// An installed deny must reach the shell, and an installed permit too: the case passes
/// exactly where the first was refused without a trace and the second ran.
pub proof fn law_an_installed_verdict_reaches_the_shell(
    case: Seq<char>,
    p: Executors,
    f: ExecFixtureView,
    drive: DriveView,
    denied: RanView,
    marker: bool,
    permitted: RanView,
    other: bool,
)
    ensures
        ({
            let one = moved(
                case,
                p,
                f,
                StageView::InstalledDeny { drive },
                EventView::Ran { ran: denied, marker },
            );
            let a = moved(case, p, f, one.0, EventView::Ran { ran: permitted, marker: other }).1;
            &&& one.1 matches ActionView::RunJudged { drive: again, verdict } && again == drive
                && verdict.allowed
            &&& passes(a) <==> refused(denied) && !marker && permitted is Output
            &&& fails(a) <==> !passes(a)
        }),
        f.root is Some && p.shell && p.sandbox && p.subprocess ==> (started(
            "injected_deny_reaches_shell"@,
            p,
            f,
        ) matches (
            StageView::InstalledDeny { drive: first },
            ActionView::RunJudged { drive: again, verdict },
        ) && first == again && !verdict.allowed),
{
    lemma_case_names();
}

/// A command that the sandbox refuses by itself is run under that very refusal. It
/// passes exactly where the run is refused, with the mode or the reason in its message,
/// and leaves no marker. A sandbox that permits, or does not decide, is owed nothing.
pub proof fn law_a_denied_command_never_runs(
    case: Seq<char>,
    p: Executors,
    f: ExecFixtureView,
    drive: DriveView,
    answer: VerdictView,
    ran: RanView,
    marker: bool,
)
    ensures
        ({
            let next = moved(case, p, f, StageView::Denial { drive }, EventView::Verdict(answer));
            match answer {
                VerdictView::Decided(e) => if e.allowed {
                    skips(next.1)
                } else {
                    let a = moved(case, p, f, next.0, EventView::Ran { ran, marker }).1;
                    &&& next.1 == (ActionView::Run { drive, installed: Some(e) })
                    &&& passes(a) <==> (ran matches RanView::Failed(code, message) && code
                        == ErrorCode::SandboxDenied && (occurs(message, e.mode) || occurs(
                        message,
                        e.reason,
                    ))) && !marker
                    &&& fails(a) <==> !passes(a)
                },
                VerdictView::Failed(_) => skips(next.1),
                VerdictView::Panicked => fails(next.1),
            }
        }),
{
}

// ---------------------------------------------------------------------------
// Confinement
// ---------------------------------------------------------------------------

/// The first line is what stands in front of the first line feed.
pub proof fn law_the_first_line_ends_at_the_first_line_feed(line: Seq<char>, rest: Seq<char>)
    requires
        !line.contains('\n'),
    ensures
        first_line(line + seq!['\n'] + rest) == line,
        first_line(line) == line,
    decreases line.len(),
{
    let all = line + seq!['\n'] + rest;
    if line.len() == 0 {
        assert(all[0] == '\n');
        assert(first_line(all) =~= line);
        assert(first_line(line) =~= line);
    } else {
        let tail = line.skip(1);
        assert(line.contains(line[0]));
        assert(all[0] == line[0]);
        assert forall|c: char| #[trigger] tail.contains(c) implies line.contains(c) by {
            let i = choose|i: int| 0 <= i < tail.len() && tail[i] == c;
            assert(line[i + 1] == c);
        }
        law_the_first_line_ends_at_the_first_line_feed(tail, rest);
        assert(all.skip(1) =~= tail + seq!['\n'] + rest);
        assert(line =~= seq![line[0]] + tail);
    }
}

/// A confined run of a provider that was given the proof variable passes exactly where
/// the child stands in the canonical root, never shows the proof variable's name, and
/// still shows the control variable with its value.
pub proof fn law_a_confined_run_is_confined(
    case: Seq<char>,
    p: Executors,
    f: ExecFixtureView,
    root: Seq<char>,
    line: Seq<char>,
    rest: Seq<char>,
    proof_var: (Seq<char>, Seq<char>),
    marker: bool,
)
    requires
        !line.contains('\n'),
        f.proof_var == Some(proof_var),
        f.proof_vars_applied,
    ensures
        ({
            let output = line + seq!['\n'] + rest;
            let a = moved(
                case,
                p,
                f,
                StageView::ConfinedRun { root },
                EventView::Ran { ran: RanView::Output(output), marker },
            ).1;
            &&& passes(a) <==> trimmed(line) == root && !occurs(output, proof_var.0) && (
            f.control_var matches Some((name, value)) ==> occurs(output, name + seq!['='] + value))
            &&& fails(a) <==> !passes(a)
        }),
{
    law_the_first_line_ends_at_the_first_line_feed(line, rest);
    reveal_strlit("=");
    assert("="@ =~= seq!['=']);
}

/// Without the proof variable the scrub is left out, but not the directory; and a
/// confined command that does not run fails.
pub proof fn law_a_confined_run_must_run(
    case: Seq<char>,
    p: Executors,
    f: ExecFixtureView,
    root: Seq<char>,
    line: Seq<char>,
    rest: Seq<char>,
    ran: RanView,
    marker: bool,
)
    requires
        !line.contains('\n'),
        f.proof_var is None || !f.proof_vars_applied,
    ensures
        ({
            let a = moved(
                case,
                p,
                f,
                StageView::ConfinedRun { root },
                EventView::Ran { ran: RanView::Output(line + seq!['\n'] + rest), marker },
            ).1;
            &&& skips(a) <==> trimmed(line) == root
            &&& fails(a) <==> trimmed(line) != root
        }),
        !(ran is Output) ==> fails(
            moved(case, p, f, StageView::ConfinedRun { root }, EventView::Ran { ran, marker }).1,
        ),
{
    law_the_first_line_ends_at_the_first_line_feed(line, rest);
}

/// Confinement is looked for only where the sandbox promised it, under the canonical
/// root it was asked about.
pub proof fn law_confinement_is_looked_for_where_it_was_promised(
    case: Seq<char>,
    p: Executors,
    f: ExecFixtureView,
    root: Seq<char>,
    why: Seq<char>,
    verdict: VerdictView,
)
    ensures
        ({
            let asked = moved(case, p, f, StageView::Resolving, EventView::Canonical(Ok(root)));
            &&& p.sandbox ==> asked.0 == (StageView::Confining { root }) && (
            asked.1 matches ActionView::Consult { consult, installed } && installed is None
                && consult.policy == (PolicyHomeView {
                workspace_root: root,
                default_confined: true,
            }))
            &&& !p.sandbox ==> skips(asked.1)
        }),
        skips(moved(case, p, f, StageView::Resolving, EventView::Canonical(Err(why))).1),
        ({
            let next = moved(case, p, f, StageView::Confining { root }, EventView::Verdict(verdict));
            let promised = verdict matches VerdictView::Decided(e) && e.allowed && e.confined;
            &&& promised ==> next.0 == (StageView::ConfinedRun { root }) && (
            next.1 matches ActionView::Run { drive, installed } && installed is None
                && drive.policy == (PolicyHomeView {
                workspace_root: root,
                default_confined: true,
            }))
            &&& verdict is Panicked ==> fails(next.1)
            &&& !promised && !(verdict is Panicked) ==> skips(next.1)
        }),
{
}

// ---------------------------------------------------------------------------
// Cancellation
// ---------------------------------------------------------------------------

/// The command that is to be cancelled stands under the fixture's root, without
/// confinement, and would outlast the bound by five seconds.
pub proof fn law_the_cancelled_command_outlasts_the_bound(
    p: Executors,
    f: ExecFixtureView,
    root: Seq<char>,
)
    requires
        f.root == Some(root),
        p.subprocess,
    ensures
        started("cancellation_is_honoured"@, p, f).0 == (StageView::Spawning { cwd: root }),
        started("cancellation_is_honoured"@, p, f).1 matches ActionView::SpawnMeasured(spawn)
            && spawn.cwd == Some(root) && spawn.confine is None && spawn.argv.len() == 3 && occurs(
            spawn.argv[2],
            CANCEL_SENTINEL@,
        ) && occurs(
            spawn.argv[2],
            "sleep "@ + decimal_text((f.cancel_timeout.secs + 5) as nat),
        ),
{
    lemma_case_names();
    reveal_strlit("echo ");
    reveal_strlit("; sleep ");
    reveal_strlit("sleep ");
    let n = decimal_text((f.cancel_timeout.secs + 5) as nat);
    let line = "echo "@ + CANCEL_SENTINEL@ + "; sleep "@ + n + "; echo should-not-print"@;
    let s = CANCEL_SENTINEL@.len() as int;
    assert(line.subrange(5, 5 + s) =~= CANCEL_SENTINEL@);
    assert(occurs_at(line, CANCEL_SENTINEL@, 5));
    let part = "sleep "@ + n;
    assert(line.subrange(7 + s, 7 + s + part.len()) =~= part);
    assert(occurs_at(line, part, 7 + s));
}

/// The probes come one after the other: a provider that refuses one is skipped, one
/// that panics or keeps a child is failed, and only one that announced itself and gave
/// a child back is measured, within the fixture's bound.
pub proof fn law_only_a_running_child_is_cancelled(
    case: Seq<char>,
    p: Executors,
    f: ExecFixtureView,
    cwd: Seq<char>,
    spawned: Spawned,
    probe: Probe,
    quiet: Quiet,
)
    ensures
        ({
            let next = moved(case, p, f, StageView::Spawning { cwd }, EventView::Spawned(spawned));
            &&& spawned is Accepted ==> next.0 == (StageView::Sentinel { cwd }) && (
            next.1 matches ActionView::ProbeSentinel(s) && s.cwd == Some(cwd) && s.confine is None)
            &&& spawned is Refused ==> skips(next.1)
            &&& spawned is Panicked ==> fails(next.1)
        }),
        ({
            let next = moved(case, p, f, StageView::Sentinel { cwd }, EventView::Probed(probe));
            &&& probe is Running ==> next.0 == (StageView::Quieting { cwd }) && (
            next.1 matches ActionView::ProbeQuiet(s) && s.cwd == Some(cwd) && s.confine is None)
            &&& probe is Silent ==> fails(next.1)
            &&& probe is Refused || probe is SilentButReleased ==> skips(next.1)
        }),
        ({
            let next = moved(case, p, f, StageView::Quieting { cwd }, EventView::Quieted(quiet));
            &&& quiet is Quiet ==> next.0 == StageView::Measuring && (
            next.1 matches ActionView::Measure { probe: s, bound } && s.cwd == Some(cwd)
                && s.confine is None && bound == f.cancel_timeout)
            &&& quiet is Rejected ==> skips(next.1)
            &&& quiet is Stuck ==> fails(next.1)
        }),
{
}

/// A probe is what it showed: refused where it was not spawned, running where it was
/// heard, and otherwise told by whether it came back once it was asked to.
pub proof fn law_a_probe_is_what_it_showed(e: ProbeEvent)
    ensures
        probed(e) == ProbeMove::Done(Probe::Refused) <==> e == ProbeEvent::Spawned(false),
        probed(e) == ProbeMove::Listen <==> e == ProbeEvent::Spawned(true),
        probed(e) == ProbeMove::Done(Probe::Running) <==> e == ProbeEvent::Heard(Some(true)),
        probed(e) == ProbeMove::Cancel <==> e is Heard && e != ProbeEvent::Heard(Some(true)),
        probed(e) == ProbeMove::Done(Probe::SilentButReleased) <==> e == ProbeEvent::Released(true),
        probed(e) == ProbeMove::Done(Probe::Silent) <==> e == ProbeEvent::Released(false),
{
}

/// A measured run passes exactly where its wait ended as cancelled and no later than
/// the fixture's bound. A child that never ran is skipped, and every other end fails.
pub proof fn law_a_cancelled_run_ends_as_cancelled_and_in_time(
    case: Seq<char>,
    p: Executors,
    f: ExecFixtureView,
    measured: Measured,
    elapsed: Span,
)
    requires
        elapsed.wf(),
        f.cancel_timeout.wf(),
    ensures
        ({
            let a = moved(
                case,
                p,
                f,
                StageView::Measuring,
                EventView::Measured { measured, elapsed },
            ).1;
            let in_time = elapsed.secs < f.cancel_timeout.secs || elapsed.secs
                == f.cancel_timeout.secs && elapsed.nanos <= f.cancel_timeout.nanos;
            &&& passes(a) <==> (measured matches Measured::Waited(Err(e)) && e.code
                == ErrorCode::ExecCancelled) && in_time
            &&& skips(a) <==> measured == Measured::Unreached(RanUp::NeverSpawned)
            &&& fails(a) <==> !passes(a) && !skips(a)
        }),
{
}

// ---------------------------------------------------------------------------
// Failures
// ---------------------------------------------------------------------------

/// A failing command passes exactly where it comes back as an error of the execution
/// world whose message echoes what the command wrote; a message that does not echo it
/// is the provider's choice, and everything else fails.
pub proof fn law_a_failing_command_is_an_error(
    case: Seq<char>,
    p: Executors,
    f: ExecFixtureView,
    ran: RanView,
    marker: bool,
)
    ensures
        ({
            let a = moved(case, p, f, StageView::Failing, EventView::Ran { ran, marker }).1;
            let codes = seq![
                ErrorCode::SpawnFailed,
                ErrorCode::ExecCancelled,
                ErrorCode::SandboxDenied,
                ErrorCode::IoError,
                ErrorCode::TooLarge,
                ErrorCode::Aborted,
            ];
            let typed = ran matches RanView::Failed(code, _) && codes.contains(code);
            let echoed = ran matches RanView::Failed(_, message) && occurs(
                message,
                "failing-on-purpose"@,
            );
            &&& passes(a) <==> typed && echoed
            &&& skips(a) <==> typed && !echoed
            &&& fails(a) <==> !typed
        }),
{
    let codes = seq![
        ErrorCode::SpawnFailed,
        ErrorCode::ExecCancelled,
        ErrorCode::SandboxDenied,
        ErrorCode::IoError,
        ErrorCode::TooLarge,
        ErrorCode::Aborted,
    ];
    assert(codes[0] == ErrorCode::SpawnFailed && codes[1] == ErrorCode::ExecCancelled && codes[2]
        == ErrorCode::SandboxDenied && codes[3] == ErrorCode::IoError && codes[4]
        == ErrorCode::TooLarge && codes[5] == ErrorCode::Aborted);
    if let RanView::Failed(code, _) = ran {
        if codes.contains(code) {
            let i = choose|i: int| 0 <= i < codes.len() && codes[i] == code;
        }
    }
}

} // verus!
