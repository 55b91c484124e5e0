//! The sandbox verdict and the shared policy home.
//!
//! A verdict is the complete auditable report: whether the command may run,
//! whether confinement is applied, in which mode, and why. A refusal is never
//! confinement, and it always says why.
//!
//! The `sandbox-local` mode is a best effort, not kernel enforcement: it scrubs
//! credential-bearing variables from the environment, pins the working directory
//! to the workspace root, and limits the address space where the system can. It
//! does not stop a process from reaching outside the root by absolute path.

use vstd::prelude::*;

use crate::assoc::Assoc;
use crate::seam::error::{failure, ErrorCode, SeamError};
use crate::seam::exec::{pairs_view, Enforced, EnforcedView, PolicyHome, PolicyHomeView};
use crate::text::{
    ascii_upper, cat, cat3, chars_of, contains, debug_text, is_blank, is_space, occurs, owned,
    quoted, texts, upper_text,
};

verus! {

/// The confinement mode a sandbox enforces.
#[derive(Debug, Clone, Copy, PartialEq, Eq, Structural)]
pub enum SandboxMode {
    /// No confinement: commands run with the parent's privileges.
    Unconfined,
    /// Best-effort local confinement.
    SandboxLocal,
    /// Refuse every command.
    DenyAll,
}

impl SandboxMode {
    /// The stable mode string.
    pub open spec fn spelling(self) -> Seq<char> {
        match self {
            SandboxMode::Unconfined => "unconfined"@,
            SandboxMode::SandboxLocal => "sandbox-local"@,
            SandboxMode::DenyAll => "deny-all"@,
        }
    }

    /// The stable mode string.
    pub fn as_str(self) -> (r: &'static str)
        ensures
            r@ == self.spelling(),
    {
        match self {
            SandboxMode::Unconfined => "unconfined",
            SandboxMode::SandboxLocal => "sandbox-local",
            SandboxMode::DenyAll => "deny-all",
        }
    }
}

/// A policy home that is declared once, from a root and a mode.
pub trait PolicyHomeExt: Sized {
    /// Build the policy home from a workspace root and default mode.
    fn from_root_and_mode(root: &str, mode: SandboxMode) -> (r: Self);

    /// The declared default confinement mode.
    fn default_mode(&self) -> (r: SandboxMode);
}

/// The mode a policy home stands for. A confined home does not tell
/// `sandbox-local` from `deny-all`, and stands for the one that enforces.
pub open spec fn mode_of(policy: PolicyHomeView) -> SandboxMode {
    if policy.default_confined {
        SandboxMode::SandboxLocal
    } else {
        SandboxMode::Unconfined
    }
}

/// The policy home of a root and a mode. Every mode but `unconfined` is
/// confinement.
pub open spec fn home_of(root: Seq<char>, mode: SandboxMode) -> PolicyHomeView {
    PolicyHomeView { workspace_root: root, default_confined: mode != SandboxMode::Unconfined }
}

impl PolicyHomeExt for PolicyHome {
    fn from_root_and_mode(root: &str, mode: SandboxMode) -> (r: PolicyHome)
        ensures
            r@ == home_of(root@, mode),
    {
        PolicyHome {
            workspace_root: owned(root),
            default_confined: match mode {
                SandboxMode::Unconfined => false,
                _ => true,
            },
        }
    }

    fn default_mode(&self) -> (r: SandboxMode)
        ensures
            r == mode_of(self@),
    {
        if self.default_confined {
            SandboxMode::SandboxLocal
        } else {
            SandboxMode::Unconfined
        }
    }
}

/// What was found at the workspace root.
pub enum RootProbe {
    /// It is not a directory.
    NotADirectory,
    /// It cannot be resolved, and why.
    Unresolved(String),
    /// Its canonical path.
    Canonical(String),
}

/// What a [`RootProbe`] says.
pub enum ProbeView {
    NotADirectory,
    Unresolved(Seq<char>),
    Canonical(Seq<char>),
}

impl View for RootProbe {
    type V = ProbeView;

    open spec fn view(&self) -> ProbeView {
        match self {
            RootProbe::NotADirectory => ProbeView::NotADirectory,
            RootProbe::Unresolved(e) => ProbeView::Unresolved(e@),
            RootProbe::Canonical(p) => ProbeView::Canonical(p@),
        }
    }
}

/// What can be guaranteed at a root now, or why nothing can.
pub open spec fn guarantees(root: Seq<char>, probe: ProbeView) -> Result<Seq<char>, Seq<char>> {
    match probe {
        ProbeView::NotADirectory => Err(
            "workspace root "@ + debug_text(root) + " is not a directory"@,
        ),
        ProbeView::Unresolved(e) => Err("workspace root cannot be resolved: "@ + e),
        ProbeView::Canonical(p) => Ok(
            "env scrub + cwd pinned to "@ + p + " (+ rlimit where supported)"@,
        ),
    }
}

/// A permitted run.
pub open spec fn permitted(mode: SandboxMode, reason: Seq<char>) -> EnforcedView {
    EnforcedView {
        confined: mode != SandboxMode::Unconfined,
        allowed: true,
        mode: mode.spelling(),
        reason,
    }
}

/// A refusal: the command never runs, so nothing is confined.
pub open spec fn refusal(mode: SandboxMode, reason: Seq<char>) -> EnforcedView {
    EnforcedView { confined: false, allowed: false, mode: mode.spelling(), reason }
}

/// The verdict on an argv in a mode, given what was found at the root.
pub open spec fn decided(
    mode: SandboxMode,
    argv: Seq<Seq<char>>,
    root: Seq<char>,
    probe: ProbeView,
) -> EnforcedView {
    match mode {
        SandboxMode::Unconfined => permitted(
            mode,
            "policy allows unconfined execution; nothing enforced"@,
        ),
        SandboxMode::DenyAll => refusal(
            mode,
            "policy refuses to run the requested command ("@ + (if argv.len() > 0 {
                argv[0]
            } else {
                "<empty argv>"@
            })
                + "): a real sandbox is required and this host's sandbox-local mode cannot confine it"@,
        ),
        SandboxMode::SandboxLocal => match guarantees(root, probe) {
            Ok(g) => permitted(
                mode,
                "best-effort local confinement applied: "@ + g
                    + "; NOT kernel-enforced — see harnless-exec-sandbox docs"@,
            ),
            Err(why) => refusal(
                mode,
                "sandbox-local mode cannot be established: "@ + why
                    + "; refusing rather than running unconfined under a confined policy"@,
            ),
        },
    }
}

fn guarantee(root: &str, probe: &RootProbe) -> (r: Result<String, String>)
    ensures
        match r {
            Ok(g) => guarantees(root@, probe@) == Ok::<Seq<char>, Seq<char>>(g@),
            Err(e) => guarantees(root@, probe@) == Err::<Seq<char>, Seq<char>>(e@),
        },
{
    match probe {
        RootProbe::NotADirectory => {
            let q = quoted(root);
            Err(cat3("workspace root ", q.as_str(), " is not a directory"))
        },
        RootProbe::Unresolved(e) => Err(
            cat("workspace root cannot be resolved: ", e.as_str()),
        ),
        RootProbe::Canonical(p) => Ok(
            cat3("env scrub + cwd pinned to ", p.as_str(), " (+ rlimit where supported)"),
        ),
    }
}

fn allow(mode: SandboxMode, reason: String) -> (r: Enforced)
    ensures
        r@ == permitted(mode, reason@),
{
    Enforced {
        confined: match mode {
            SandboxMode::Unconfined => false,
            _ => true,
        },
        allowed: true,
        mode: owned(mode.as_str()),
        reason,
    }
}

fn deny(mode: SandboxMode, reason: String) -> (r: Enforced)
    ensures
        r@ == refusal(mode, reason@),
{
    Enforced { confined: false, allowed: false, mode: owned(mode.as_str()), reason }
}

/// The names that mark a variable as credential-bearing, wherever they stand in
/// its upper-case name.
pub const NEEDLES: [&'static str; 9] = [
    "KEY",
    "SECRET",
    "TOKEN",
    "PASS",
    "CRED",
    "API",
    "AWS_",
    "GOOGLE_",
    "SSH_AUTH",
];

/// Whether a variable looks credential-bearing.
pub open spec fn sensitive(name: Seq<char>) -> bool {
    exists|i: int| 0 <= i < 9 && occurs(upper_text(name), (#[trigger] NEEDLES@[i])@)
}

/// Whether a variable can stand in an environment.
pub open spec fn nameable(name: Seq<char>, value: Seq<char>) -> bool {
    &&& name.len() > 0
    &&& forall|i: int| 0 <= i < name.len() ==> #[trigger] name[i] != '\0'
    &&& forall|i: int| 0 <= i < value.len() ==> #[trigger] value[i] != '\0'
}

/// Whether a variable survives the scrub.
pub open spec fn survives(p: (Seq<char>, Seq<char>)) -> bool {
    nameable(p.0, p.1) && !sensitive(p.0)
}

/// The environment a list of variables makes: of two of one name the later
/// counts, and those that do not survive the scrub are left out.
pub open spec fn scrubbed(vars: Seq<(Seq<char>, Seq<char>)>) -> Map<Seq<char>, Seq<char>>
    decreases vars.len(),
{
    if vars.len() == 0 {
        Map::empty()
    } else if survives(vars.last()) {
        scrubbed(vars.drop_last()).insert(vars.last().0, vars.last().1)
    } else {
        scrubbed(vars.drop_last())
    }
}

/// The environment a list of distinct variables makes.
pub open spec fn env_map(vars: Seq<(Seq<char>, Seq<char>)>) -> Map<Seq<char>, Seq<char>>
    decreases vars.len(),
{
    if vars.len() == 0 {
        Map::empty()
    } else {
        env_map(vars.drop_last()).insert(vars.last().0, vars.last().1)
    }
}

fn is_sensitive(name: &str) -> (r: bool)
    ensures
        r == sensitive(name@),
{
    let upper = ascii_upper(name);
    let mut i: usize = 0;
    while i < 9
        invariant
            i <= 9,
            upper@ == upper_text(name@),
            forall|k: int| 0 <= k < i ==> !occurs(upper@, (#[trigger] NEEDLES@[k])@),
        decreases 9 - i,
    {
        if contains(upper.as_str(), NEEDLES[i]) {
            return true;
        }
        i = i + 1;
    }
    false
}

fn has_nul(s: &str) -> (r: bool)
    ensures
        r == !(forall|i: int| 0 <= i < s@.len() ==> #[trigger] s@[i] != '\0'),
{
    let cs = chars_of(s);
    for i in 0..cs.len()
        invariant
            cs@ == s@,
            forall|k: int| 0 <= k < i ==> #[trigger] s@[k] != '\0',
    {
        if cs[i] == '\0' {
            assert(s@[i as int] == '\0');
            return true;
        }
    }
    false
}

fn is_nameable(name: &str, value: &str) -> (r: bool)
    ensures
        r == nameable(name@, value@),
{
    let cs = chars_of(name);
    cs.len() > 0 && !has_nul(name) && !has_nul(value)
}

/// The sandbox seam over the local policy home.
#[derive(Debug, Clone, Copy, PartialEq, Eq)]
pub struct LocalSandbox {
    /// The mode this sandbox enforces; `None` follows each policy's default.
    pub mode: Option<SandboxMode>,
}

impl LocalSandbox {
    /// The mode applied to a policy.
    pub open spec fn mode_under(self, policy: PolicyHomeView) -> SandboxMode {
        match self.mode {
            Some(mode) => mode,
            None => mode_of(policy),
        }
    }

    /// Follow each policy's default.
    pub fn new() -> (r: LocalSandbox)
        ensures
            r.mode is None,
    {
        LocalSandbox { mode: None }
    }

    /// Always enforce `mode`.
    pub fn with_mode(mode: SandboxMode) -> (r: LocalSandbox)
        ensures
            r.mode == Some(mode),
    {
        LocalSandbox { mode: Some(mode) }
    }

    /// The mode applied to `policy`.
    pub fn mode_for(&self, policy: &PolicyHome) -> (r: SandboxMode)
        ensures
            r == self.mode_under(policy@),
    {
        match self.mode {
            Some(mode) => mode,
            None => policy.default_mode(),
        }
    }

    /// The full verdict for `argv` under `policy`, given what was found at its
    /// root.
    pub fn enforce_verdict(&self, argv: &Vec<String>, policy: &PolicyHome, probe: &RootProbe) -> (r:
        Enforced)
        ensures
            r@ == decided(
                self.mode_under(policy@),
                texts(argv@),
                policy@.workspace_root,
                probe@,
            ),
    {
        let mode = self.mode_for(policy);
        match mode {
            SandboxMode::Unconfined => allow(
                mode,
                owned("policy allows unconfined execution; nothing enforced"),
            ),
            SandboxMode::DenyAll => {
                let first = if argv.len() > 0 {
                    argv[0].as_str()
                } else {
                    "<empty argv>"
                };
                deny(
                    mode,
                    cat3(
                        "policy refuses to run the requested command (",
                        first,
                        "): a real sandbox is required and this host's sandbox-local mode cannot confine it",
                    ),
                )
            },
            SandboxMode::SandboxLocal => match guarantee(policy.workspace_root.as_str(), probe) {
                Ok(g) => allow(
                    mode,
                    cat3(
                        "best-effort local confinement applied: ",
                        g.as_str(),
                        "; NOT kernel-enforced — see harnless-exec-sandbox docs",
                    ),
                ),
                Err(why) => deny(
                    mode,
                    cat3(
                        "sandbox-local mode cannot be established: ",
                        why.as_str(),
                        "; refusing rather than running unconfined under a confined policy",
                    ),
                ),
            },
        }
    }

    /// The environment a confined child gets: what is inherited, then the extras,
    /// later ones winning, without what looks credential-bearing.
    pub fn prepare_scrubbed_env(
        &self,
        inherited: Vec<(String, String)>,
        extra_env: Vec<(String, String)>,
    ) -> (r: Vec<(String, String)>)
        ensures
            env_map(pairs_view(r@)) == scrubbed(pairs_view(inherited@) + pairs_view(extra_env@)),
            forall|i: int, j: int| 0 <= i < j < r@.len() ==> r@[i].0@ != r@[j].0@,
    {
        let mut vars: Assoc<String, String> = Assoc::new();
        let ghost first = pairs_view(inherited@);
        let ghost second = pairs_view(extra_env@);
        assert(scrubbed(Seq::empty()) =~= vars@.map_values(|v: String| v@));
        merge(&mut vars, &inherited, Ghost(Seq::empty()));
        assert(Seq::empty() + first =~= first);
        merge(&mut vars, &extra_env, Ghost(first));
        list_vars(&vars)
    }

    /// The names of variables to drop from an environment that is scrubbed in
    /// place.
    pub fn doomed_names(&self, names: &Vec<String>) -> (r: Vec<String>)
        ensures
            texts(r@) == texts(names@).filter(|n: Seq<char>| sensitive(n)),
    {
        let ghost all = texts(names@);
        let ghost pred = |n: Seq<char>| sensitive(n);
        let mut out: Vec<String> = Vec::new();
        assert(all.take(0) =~= Seq::empty());
        assert(all.take(0).filter(pred) =~= Seq::empty()) by {
            reveal(Seq::filter);
        }
        assert(texts(out@) =~= Seq::empty());
        for i in 0..names.len()
            invariant
                all == texts(names@),
                pred == (|n: Seq<char>| sensitive(n)),
                texts(out@) == all.take(i as int).filter(pred),
        {
            let ghost before = texts(out@);
            assert(all.take(i + 1).drop_last() =~= all.take(i as int));
            assert(all.take(i + 1).last() == names@[i as int]@);
            proof {
                reveal(Seq::filter);
            }
            if is_sensitive(names[i].as_str()) {
                out.push(names[i].clone());
                assert(texts(out@) =~= before.push(names@[i as int]@));
            }
        }
        assert(all.take(names@.len() as int) =~= all);
        out
    }

    /// The failure of entering the workspace root in the child.
    pub fn pin_error(&self, why: &str) -> (r: SeamError)
        ensures
            r@ == failure(
                ErrorCode::SandboxDenied,
                "sandbox-local cannot enter workspace root: "@ + why@,
            ),
    {
        SeamError::with(
            ErrorCode::SandboxDenied,
            cat("sandbox-local cannot enter workspace root: ", why),
        )
    }

    /// The failure of limiting the address space in the child.
    pub fn rlimit_error(&self, why: &str) -> (r: SeamError)
        ensures
            r@ == failure(
                ErrorCode::SandboxDenied,
                "setrlimit(RLIMIT_AS) failed: "@ + why@,
            ),
    {
        SeamError::with(ErrorCode::SandboxDenied, cat("setrlimit(RLIMIT_AS) failed: ", why))
    }
}

/// Merge the variables that survive into an environment.
fn merge(vars: &mut Assoc<String, String>, more: &Vec<(String, String)>, before: Ghost<
    Seq<(Seq<char>, Seq<char>)>,
>)
    requires
        old(vars).wf(),
        old(vars)@.map_values(|v: String| v@) == scrubbed(before@),
    ensures
        final(vars).wf(),
        final(vars)@.map_values(|v: String| v@) == scrubbed(before@ + pairs_view(more@)),
{
    let ghost all = pairs_view(more@);
    assert(before@ + all.take(0) =~= before@);
    for i in 0..more.len()
        invariant
            all == pairs_view(more@),
            vars.wf(),
            vars@.map_values(|v: String| v@) == scrubbed(before@ + all.take(i as int)),
    {
        let ghost now = vars@;
        let ghost grown = before@ + all.take(i + 1);
        assert(grown.drop_last() =~= before@ + all.take(i as int));
        assert(grown.last() == (more@[i as int].0@, more@[i as int].1@));
        if is_nameable(more[i].0.as_str(), more[i].1.as_str()) && !is_sensitive(
            more[i].0.as_str(),
        ) {
            vars.insert(more[i].0.clone(), more[i].1.clone());
            assert(vars@.map_values(|v: String| v@) =~= now.map_values(|v: String| v@).insert(
                more@[i as int].0@,
                more@[i as int].1@,
            ));
        }
    }
    assert(all.take(more@.len() as int) =~= all);
}

/// The entries of an environment.
fn list_vars(vars: &Assoc<String, String>) -> (r: Vec<(String, String)>)
    requires
        vars.wf(),
    ensures
        env_map(pairs_view(r@)) == vars@.map_values(|v: String| v@),
        forall|i: int, j: int| 0 <= i < j < r@.len() ==> r@[i].0@ != r@[j].0@,
{
    let ghost listed = vars.listed();
    let mut out: Vec<(String, String)> = Vec::new();
    let mut i: usize = 0;
    while i < vars.len()
        invariant
            i <= listed.len(),
            listed == vars.listed(),
            out@.len() == i,
            forall|k: int|
                0 <= k < i ==> (#[trigger] out@[k]).0@ == listed[k].0@ && out@[k].1@
                    == listed[k].1@,
        decreases listed.len() - i,
    {
        let (name, value) = vars.at(i);
        out.push((name.clone(), value.clone()));
        i = i + 1;
    }
    proof {
        vars.lemma_listed();
        let pairs = pairs_view(out@);
        assert forall|a: int, b: int| 0 <= a < b < out@.len() implies out@[a].0@ != out@[b].0@ by {
            if out@[a].0@ == out@[b].0@ {
                assert(listed[a].0@ == listed[b].0@);
            }
        }
        lemma_env_map(pairs);
        let want = vars@.map_values(|v: String| v@);
        let got = env_map(pairs);
        assert forall|k: Seq<char>|
            #![trigger got.dom().contains(k)]
            #![trigger want.dom().contains(k)]
            got.dom().contains(k) == want.dom().contains(k) && (got.dom().contains(k) ==> got[k]
                == want[k]) by {
            if exists|j: int| 0 <= j < listed.len() && #[trigger] listed[j].0@ == k {
                let j = choose|j: int| 0 <= j < listed.len() && #[trigger] listed[j].0@ == k;
                crate::assoc::lemma_listed_value(listed, j);
                assert(pairs[j].0 == k);
            } else {
                assert(!crate::assoc::keyed(listed, k));
                if got.dom().contains(k) {
                    let j = choose|j: int| 0 <= j < pairs.len() && (#[trigger] pairs[j]).0 == k;
                    assert(listed[j].0@ == k);
                }
            }
        }
        assert(got =~= want);
    }
    out
}

/// Distinct variables are each in the environment they make.
proof fn lemma_env_map(vars: Seq<(Seq<char>, Seq<char>)>)
    requires
        forall|i: int, j: int|
            0 <= i < j < vars.len() ==> (#[trigger] vars[i]).0 != (#[trigger] vars[j]).0,
    ensures
        forall|i: int|
            0 <= i < vars.len() ==> env_map(vars).contains_key((#[trigger] vars[i]).0)
                && env_map(vars)[vars[i].0] == vars[i].1,
        forall|k: Seq<char>| #[trigger]
            env_map(vars).contains_key(k) ==> exists|i: int|
                0 <= i < vars.len() && (#[trigger] vars[i]).0 == k,
    decreases vars.len(),
{
    if vars.len() > 0 {
        let short = vars.drop_last();
        assert forall|i: int, j: int| 0 <= i < j < short.len() implies (#[trigger] short[i]).0 != (
        #[trigger] short[j]).0 by {
            assert(short[i] == vars[i] && short[j] == vars[j]);
        }
        lemma_env_map(short);
        assert forall|i: int| 0 <= i < vars.len() implies env_map(vars).contains_key(
            (#[trigger] vars[i]).0,
        ) && env_map(vars)[vars[i].0] == vars[i].1 by {
            if i < short.len() {
                assert(short[i] == vars[i]);
                assert(vars[i].0 != vars[vars.len() - 1].0);
            }
        }
        assert forall|k: Seq<char>| #[trigger] env_map(vars).contains_key(k) implies exists|i: int|
            0 <= i < vars.len() && (#[trigger] vars[i]).0 == k by {
            if k == vars.last().0 {
                assert(vars[vars.len() - 1].0 == k);
            } else {
                assert(env_map(short).contains_key(k));
                let i = choose|i: int| 0 <= i < short.len() && (#[trigger] short[i]).0 == k;
                assert(vars[i].0 == k);
            }
        }
    }
}

// ---------------------------------------------------------------------------
// Laws
// ---------------------------------------------------------------------------

/// A refusal never looks like confinement, and it always says why.
pub proof fn law_a_refusal_is_explained_and_never_confined(
    mode: SandboxMode,
    argv: Seq<Seq<char>>,
    root: Seq<char>,
    probe: ProbeView,
)
    ensures
        !decided(mode, argv, root, probe).allowed ==> !decided(mode, argv, root, probe).confined,
        !is_blank(decided(mode, argv, root, probe).reason),
        decided(mode, argv, root, probe).mode == mode.spelling(),
{
    reveal_strlit("policy allows unconfined execution; nothing enforced");
    reveal_strlit("policy refuses to run the requested command (");
    reveal_strlit("best-effort local confinement applied: ");
    reveal_strlit("sandbox-local mode cannot be established: ");
    let reason = decided(mode, argv, root, probe).reason;
    assert(!is_space(reason[0])) by {
        assert(!is_space('p') && !is_space('b') && !is_space('s'));
    }
}

/// A confined policy runs a command confined or not at all: the verdict is
/// confined exactly when it allows the run.
pub proof fn law_a_confined_policy_never_runs_unconfined(
    mode: SandboxMode,
    argv: Seq<Seq<char>>,
    root: Seq<char>,
    probe: ProbeView,
)
    requires
        mode != SandboxMode::Unconfined,
    ensures
        decided(mode, argv, root, probe).confined == decided(mode, argv, root, probe).allowed,
{
}

/// The unconfined mode allows every command and claims to confine none;
/// `deny-all` refuses every command; `sandbox-local` allows a command exactly
/// when the root was resolved.
pub proof fn law_each_mode_decides_as_named(
    argv: Seq<Seq<char>>,
    root: Seq<char>,
    probe: ProbeView,
)
    ensures
        decided(SandboxMode::Unconfined, argv, root, probe).allowed,
        !decided(SandboxMode::Unconfined, argv, root, probe).confined,
        !decided(SandboxMode::DenyAll, argv, root, probe).allowed,
        decided(SandboxMode::SandboxLocal, argv, root, probe).allowed <==> probe is Canonical,
{
}

/// A mode survives the policy home's boolean: `deny-all` reads as confinement,
/// never as `unconfined`.
pub proof fn law_modes_survive_the_policy_home(root: Seq<char>, mode: SandboxMode)
    ensures
        home_of(root, mode).workspace_root == root,
        mode_of(home_of(root, mode)) == (if mode == SandboxMode::Unconfined {
            SandboxMode::Unconfined
        } else {
            SandboxMode::SandboxLocal
        }),
{
}

/// No credential-bearing variable survives the scrub, and every other variable
/// that can stand in an environment does, with the last value it was given.
pub proof fn law_the_scrub_drops_credentials_and_keeps_the_rest(
    vars: Seq<(Seq<char>, Seq<char>)>,
    name: Seq<char>,
)
    ensures
        sensitive(name) ==> !scrubbed(vars).contains_key(name),
        forall|i: int|
            0 <= i < vars.len() && (#[trigger] vars[i]).0 == name && survives(vars[i]) && (forall|
                j: int,
            |
                i < j < vars.len() && (#[trigger] vars[j]).0 == name ==> !survives(vars[j]))
                ==> scrubbed(vars).contains_key(name) && scrubbed(vars)[name] == vars[i].1,
    decreases vars.len(),
{
    if vars.len() > 0 {
        let short = vars.drop_last();
        law_the_scrub_drops_credentials_and_keeps_the_rest(short, name);
        assert forall|i: int|
            0 <= i < vars.len() && (#[trigger] vars[i]).0 == name && survives(vars[i]) && (forall|
                j: int,
            |
                i < j < vars.len() && (#[trigger] vars[j]).0 == name ==> !survives(
                    vars[j],
                )) implies scrubbed(vars).contains_key(name) && scrubbed(vars)[name] == vars[i].1 by {
            if i < short.len() {
                assert(short[i] == vars[i]);
                assert forall|j: int|
                    i < j < short.len() && (#[trigger] short[j]).0 == name implies !survives(
                    short[j],
                ) by {
                    assert(short[j] == vars[j]);
                }
                let last = vars[vars.len() - 1];
                if last.0 == name {
                    assert(!survives(last));
                }
            }
        }
    }
}

} // verus!
