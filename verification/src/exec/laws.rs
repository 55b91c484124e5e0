//! What holds of running a command line, from the verdict to the child.

use vstd::prelude::*;

use crate::exec::bash::{
    denial, planned, routed, shell_argv, shell_moved, RouteView, ShellCallView, ShellReply,
    ShellStage,
};
use crate::exec::sandbox::{
    decided, mode_of, scrubbed, sensitive, survives, LocalSandbox, ProbeView, SandboxMode, NEEDLES,
};
use crate::seam::error::{outcome, ErrorCode, SeamError};
use crate::seam::exec::{ConfinementView, Enforced, EnforcedView, PolicyHomeView, SpawnView};
use crate::text::{debug_text, debug_texts, occurs, occurs_at, upper_text};

verus! {

/// Where a text stands in a longer one.
proof fn lemma_found(a: Seq<char>, s: Seq<char>, b: Seq<char>)
    ensures
        occurs(a + s + b, s),
{
    let all = a + s + b;
    assert(all.subrange(a.len() as int, (a.len() + s.len()) as int) =~= s);
    assert(occurs_at(all, s, a.len() as int));
}

// ---------------------------------------------------------------------------
// The command line
// ---------------------------------------------------------------------------

/// A command line is handed to the shell as one argument, unchanged.
pub proof fn law_a_command_is_one_argument(command: Seq<char>)
    ensures
        shell_argv(command).len() == 3,
        shell_argv(command)[0] == "/bin/bash"@,
        shell_argv(command)[1] == "-c"@,
        shell_argv(command)[2] == command,
{
}

/// What is planned for an allowed command is that command, in the policy's root, and
/// confined exactly where the verdict is.
pub proof fn law_an_allowed_command_is_planned(
    e: EnforcedView,
    argv: Seq<Seq<char>>,
    policy: PolicyHomeView,
)
    ensures
        planned(e, argv, policy) is Ok <==> e.allowed,
        planned(e, argv, policy) matches Ok(s) ==> {
            &&& s.argv == argv
            &&& s.cwd == Some(policy.workspace_root)
            &&& s.confine is Some <==> e.confined
            &&& s.confine matches Some(hint) ==> (hint matches Some(c) && c.policy == policy
                && c.rlimit_as_bytes is None && c.extra_env.len() == 0)
        },
{
}

/// A refusal carries the whole report: the mode that refused, the reason it gave and
/// the command it refused.
pub proof fn law_a_denial_carries_the_report(e: EnforcedView, argv: Seq<Seq<char>>)
    ensures
        denial(e, argv).code == ErrorCode::SandboxDenied,
        occurs(denial(e, argv).message, e.mode),
        occurs(denial(e, argv).message, debug_text(e.reason)),
        occurs(denial(e, argv).message, debug_texts(argv)),
{
    let m = denial(e, argv).message;
    let a = "sandbox denied command: mode="@;
    let b = " confined="@ + crate::seam::exec::bool_text(e.confined) + " reason="@;
    let c = " argv="@;
    let r = debug_text(e.reason);
    let v = debug_texts(argv);
    assert(m =~= a + e.mode + (b + r + c + v));
    lemma_found(a, e.mode, b + r + c + v);
    assert(m =~= (a + e.mode + b) + r + (c + v));
    lemma_found(a + e.mode + b, r, c + v);
    assert(m =~= (a + e.mode + b + r + c) + v + Seq::<char>::empty());
    lemma_found(a + e.mode + b + r + c, v, Seq::empty());
}

/// A run comes to what its parts came to: the failure of the sandbox, the denial, the
/// failure of the spawn, or the process's own output, whatever that is.
pub proof fn law_a_run_comes_to_what_its_parts_came_to<H>(
    command: Seq<char>,
    policy: PolicyHomeView,
    failed: SeamError,
    handle: H,
    out: Result<String, SeamError>,
    enforced: Enforced,
)
    requires
        enforced@.allowed,
    ensures
        shell_moved(
            command,
            policy,
            ShellStage::Consulting,
            ShellReply::<H>::Consulted(Err(failed)),
        ) == (None::<ShellStage>, ShellCallView::<H>::Done(Err(failed@))),
        shell_moved(command, policy, ShellStage::Spawning, ShellReply::<H>::Spawned(Err(failed))) == (
            None::<ShellStage>,
            ShellCallView::<H>::Done(Err(failed@)),
        ),
        shell_moved(command, policy, ShellStage::Spawning, ShellReply::<H>::Spawned(Ok(handle))) == (
            Some(ShellStage::Awaiting),
            ShellCallView::<H>::Await(handle),
        ),
        shell_moved(command, policy, ShellStage::Awaiting, ShellReply::<H>::Output(out)) == (
            None::<ShellStage>,
            ShellCallView::<H>::Done(outcome(out)),
        ),
        shell_moved(
            command,
            policy,
            ShellStage::Consulting,
            ShellReply::<H>::Consulted(Ok(enforced)),
        ) matches (Some(ShellStage::Spawning), ShellCallView::Spawn(s)) && s.argv.len() == 3
            && s.argv[2] == command && s.cwd == Some(policy.workspace_root),
{
}

/// A confined spawn goes to the confined path with its own confinement, and the
/// spawner's variables in front of its own, none of either lost.
pub proof fn law_a_confined_spawn_keeps_its_confinement(
    extra: Seq<(Seq<char>, Seq<char>)>,
    spawn: SpawnView,
    c: ConfinementView,
)
    requires
        spawn.confine == Some(Some(c)),
    ensures
        routed(extra, spawn) matches RouteView::Confined(r) && {
            &&& r.policy == c.policy
            &&& r.rlimit_as_bytes == c.rlimit_as_bytes
            &&& r.extra_env.len() == extra.len() + c.extra_env.len()
            &&& r.extra_env.take(extra.len() as int) == extra
            &&& r.extra_env.skip(extra.len() as int) == c.extra_env
        },
{
    let r = routed(extra, spawn)->Confined_0;
    assert(r.extra_env.take(extra.len() as int) =~= extra);
    assert(r.extra_env.skip(extra.len() as int) =~= c.extra_env);
}

/// A spawn without a hint goes to the plain path, whatever it runs.
pub proof fn law_a_plain_spawn_takes_the_plain_path(
    extra: Seq<(Seq<char>, Seq<char>)>,
    spawn: SpawnView,
)
    ensures
        routed(extra, spawn) is Plain <==> spawn.confine is None,
{
}

// ---------------------------------------------------------------------------
// The verdict
// ---------------------------------------------------------------------------

/// The reason of a verdict says what it rests on: the directory a run is pinned to,
/// what stands in the way of one, or the program that is refused.
pub proof fn law_a_verdict_says_what_it_rests_on(
    argv: Seq<Seq<char>>,
    root: Seq<char>,
    path: Seq<char>,
    why: Seq<char>,
)
    ensures
        occurs(
            decided(SandboxMode::SandboxLocal, argv, root, ProbeView::Canonical(path)).reason,
            path,
        ),
        occurs(
            decided(SandboxMode::SandboxLocal, argv, root, ProbeView::Unresolved(why)).reason,
            why,
        ),
        occurs(
            decided(SandboxMode::SandboxLocal, argv, root, ProbeView::NotADirectory).reason,
            debug_text(root),
        ),
        argv.len() > 0 ==> occurs(
            decided(SandboxMode::DenyAll, argv, root, ProbeView::Canonical(path)).reason,
            argv[0],
        ),
{
    let a = "best-effort local confinement applied: "@ + "env scrub + cwd pinned to "@;
    let b = " (+ rlimit where supported)"@
        + "; NOT kernel-enforced — see harnless-exec-sandbox docs"@;
    let first = decided(SandboxMode::SandboxLocal, argv, root, ProbeView::Canonical(path)).reason;
    assert(first =~= a + path + b);
    lemma_found(a, path, b);
    let c = "sandbox-local mode cannot be established: "@ + "workspace root cannot be resolved: "@;
    let d = "; refusing rather than running unconfined under a confined policy"@;
    let second = decided(SandboxMode::SandboxLocal, argv, root, ProbeView::Unresolved(why)).reason;
    assert(second =~= c + why + d);
    lemma_found(c, why, d);
    let e = "sandbox-local mode cannot be established: "@ + "workspace root "@;
    let f = " is not a directory"@ + d;
    let third = decided(SandboxMode::SandboxLocal, argv, root, ProbeView::NotADirectory).reason;
    assert(third =~= e + debug_text(root) + f);
    lemma_found(e, debug_text(root), f);
    if argv.len() > 0 {
        let g = "policy refuses to run the requested command ("@;
        let h =
            "): a real sandbox is required and this host's sandbox-local mode cannot confine it"@;
        let fourth = decided(SandboxMode::DenyAll, argv, root, ProbeView::Canonical(path)).reason;
        assert(fourth =~= g + argv[0] + h);
        lemma_found(g, argv[0], h);
    }
}

/// The mode of a verdict is the mode it was decided in, and the verdict of the
/// unconfined and the refusing mode does not depend on the root.
pub proof fn law_only_local_confinement_looks_at_the_root(
    argv: Seq<Seq<char>>,
    a: Seq<char>,
    b: Seq<char>,
    p: ProbeView,
    q: ProbeView,
)
    ensures
        decided(SandboxMode::Unconfined, argv, a, p) == decided(SandboxMode::Unconfined, argv, b, q),
        decided(SandboxMode::DenyAll, argv, a, p) == decided(SandboxMode::DenyAll, argv, b, q),
        decided(SandboxMode::SandboxLocal, argv, a, p).allowed ==> decided(
            SandboxMode::SandboxLocal,
            argv,
            a,
            p,
        ).confined,
{
}

// ---------------------------------------------------------------------------
// The scrub
// ---------------------------------------------------------------------------

/// Whether an upper-case name holds one of the words that mark a credential.
pub open spec fn marked(name: Seq<char>) -> bool {
    ||| occurs(name, "KEY"@)
    ||| occurs(name, "SECRET"@)
    ||| occurs(name, "TOKEN"@)
    ||| occurs(name, "PASS"@)
    ||| occurs(name, "CRED"@)
    ||| occurs(name, "API"@)
    ||| occurs(name, "AWS_"@)
    ||| occurs(name, "GOOGLE_"@)
    ||| occurs(name, "SSH_AUTH"@)
}

/// A variable is taken for a credential exactly where its name, in upper case, holds
/// one of the words that mark one.
pub proof fn law_credentials_are_told_by_their_names(name: Seq<char>)
    ensures
        sensitive(name) <==> marked(upper_text(name)),
{
    let upper = upper_text(name);
    assert(NEEDLES@[0]@ == "KEY"@ && NEEDLES@[1]@ == "SECRET"@ && NEEDLES@[2]@ == "TOKEN"@);
    assert(NEEDLES@[3]@ == "PASS"@ && NEEDLES@[4]@ == "CRED"@ && NEEDLES@[5]@ == "API"@);
    assert(NEEDLES@[6]@ == "AWS_"@ && NEEDLES@[7]@ == "GOOGLE_"@ && NEEDLES@[8]@ == "SSH_AUTH"@);
    if sensitive(name) {
        let i = choose|i: int| 0 <= i < 9 && occurs(upper, (#[trigger] NEEDLES@[i])@);
        assert(i == 0 || i == 1 || i == 2 || i == 3 || i == 4 || i == 5 || i == 6 || i == 7 || i
            == 8);
    }
}

/// The letter case of a name does not matter to the scrub, nor what stands around the
/// word.
pub proof fn law_letter_case_hides_no_credential(a: Seq<char>, b: Seq<char>)
    requires
        upper_text(a) == upper_text(b),
    ensures
        sensitive(a) <==> sensitive(b),
        upper_text(a).len() == a.len(),
        forall|i: int|
            0 <= i < a.len() ==> #[trigger] upper_text(a)[i] == (if 'a' <= a[i] <= 'z' {
                (a[i] as u8 - 32) as char
            } else {
                a[i]
            }),
{
}

/// Whatever stands around it, a name that holds a secret, a token or a key is
/// scrubbed.
pub proof fn law_a_marked_name_is_scrubbed(a: Seq<char>, b: Seq<char>, word: Seq<char>)
    requires
        upper_text(word) == "SECRET"@ || upper_text(word) == "TOKEN"@ || upper_text(word) == "KEY"@
            || upper_text(word) == "PASS"@ || upper_text(word) == "CRED"@ || upper_text(word)
            == "API"@,
    ensures
        sensitive(a + word + b),
{
    let name = a + word + b;
    law_credentials_are_told_by_their_names(name);
    assert(upper_text(name) =~= upper_text(a) + upper_text(word) + upper_text(b));
    lemma_found(upper_text(a), upper_text(word), upper_text(b));
}

/// The scrub invents nothing: a variable that is left was given, survives, and has a
/// value it was given.
pub proof fn law_the_scrub_invents_nothing(vars: Seq<(Seq<char>, Seq<char>)>, name: Seq<char>)
    requires
        scrubbed(vars).contains_key(name),
    ensures
        exists|i: int|
            0 <= i < vars.len() && (#[trigger] vars[i]).0 == name && vars[i].1 == scrubbed(
                vars,
            )[name] && survives(vars[i]),
    decreases vars.len(),
{
    let head = vars.drop_last();
    let n = vars.len() - 1;
    if survives(vars.last()) && vars.last().0 == name {
        assert(vars[n].0 == name);
    } else {
        law_the_scrub_invents_nothing(head, name);
        let i = choose|i: int|
            0 <= i < head.len() && (#[trigger] head[i]).0 == name && head[i].1 == scrubbed(
                head,
            )[name] && survives(head[i]);
        assert(vars[i] == head[i]);
    }
}

/// A variable survives exactly where it can stand in an environment and is no
/// credential: it has a name, neither it nor its value holds a NUL.
pub proof fn law_what_survives_the_scrub(name: Seq<char>, value: Seq<char>)
    ensures
        survives((name, value)) <==> name.len() > 0 && !name.contains('\0') && !value.contains('\0')
            && !marked(upper_text(name)),
{
    law_credentials_are_told_by_their_names(name);
    if survives((name, value)) {
        assert(!name.contains('\0'));
        assert(!value.contains('\0'));
    }
    if !name.contains('\0') && !value.contains('\0') {
        assert forall|i: int| 0 <= i < name.len() implies #[trigger] name[i] != '\0' by {
            assert(name.contains(name[i]));
        }
        assert forall|i: int| 0 <= i < value.len() implies #[trigger] value[i] != '\0' by {
            assert(value.contains(value[i]));
        }
    }
}

/// A sandbox with a mode of its own applies it to every policy; one without follows
/// what the policy asks for.
pub proof fn law_a_mode_of_its_own_comes_first(mode: SandboxMode, policy: PolicyHomeView)
    ensures
        (LocalSandbox { mode: Some(mode) }).mode_under(policy) == mode,
        (LocalSandbox { mode: None }).mode_under(policy) == mode_of(policy),
{
}

} // verus!
