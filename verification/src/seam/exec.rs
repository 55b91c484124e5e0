//! The execution seams: policy homes, sandbox verdicts, spawn coordinates.

use vstd::prelude::*;

use crate::seam::error::SeamError;
use crate::text::{
    cat3, cat5, cat7, debug_text, debug_text_opt, debug_texts, quoted, quoted_list, quoted_opt,
    text_opt, texts,
};

verus! {

/// The one home of the execution policy: where commands run, and whether they
/// are confined by default.
#[derive(Debug, Clone, PartialEq, Eq)]
pub struct PolicyHome {
    pub workspace_root: String,
    pub default_confined: bool,
}

/// What a [`PolicyHome`] says.
pub struct PolicyHomeView {
    pub workspace_root: Seq<char>,
    pub default_confined: bool,
}

impl View for PolicyHome {
    type V = PolicyHomeView;

    open spec fn view(&self) -> PolicyHomeView {
        PolicyHomeView {
            workspace_root: self.workspace_root@,
            default_confined: self.default_confined,
        }
    }
}

impl PolicyHome {
    /// A copy of this policy home.
    pub fn copy(&self) -> (r: PolicyHome)
        ensures
            r == *self,
    {
        PolicyHome {
            workspace_root: self.workspace_root.clone(),
            default_confined: self.default_confined,
        }
    }
}

/// A sandbox's report on one command: the verdict, and what it enforces.
#[derive(Debug, Clone, PartialEq, Eq)]
pub struct Enforced {
    /// Whether confinement is applied to the run.
    pub confined: bool,
    /// Whether the command may run.
    pub allowed: bool,
    /// The mode the sandbox enforces.
    pub mode: String,
    /// Why, for the record.
    pub reason: String,
}

/// What an [`Enforced`] says.
pub struct EnforcedView {
    pub confined: bool,
    pub allowed: bool,
    pub mode: Seq<char>,
    pub reason: Seq<char>,
}

impl View for Enforced {
    type V = EnforcedView;

    open spec fn view(&self) -> EnforcedView {
        EnforcedView {
            confined: self.confined,
            allowed: self.allowed,
            mode: self.mode@,
            reason: self.reason@,
        }
    }
}

/// `true` or `false`.
pub open spec fn bool_text(b: bool) -> Seq<char> {
    if b {
        "true"@
    } else {
        "false"@
    }
}

/// `true` or `false`.
pub fn shown_bool(b: bool) -> (r: &'static str)
    ensures
        r@ == bool_text(b),
{
    if b {
        "true"
    } else {
        "false"
    }
}

impl EnforcedView {
    /// The full report, field by field.
    pub open spec fn shown(self) -> Seq<char> {
        "Enforced { confined: "@ + bool_text(self.confined) + ", allowed: "@ + bool_text(
            self.allowed,
        ) + ", mode: "@ + debug_text(self.mode) + (", reason: "@ + debug_text(self.reason) + " }"@)
    }
}

impl Enforced {
    /// A copy of this report.
    pub fn copy(&self) -> (r: Enforced)
        ensures
            r == *self,
    {
        Enforced {
            confined: self.confined,
            allowed: self.allowed,
            mode: self.mode.clone(),
            reason: self.reason.clone(),
        }
    }

    /// The full report, field by field.
    pub fn display(&self) -> (r: String)
        ensures
            r@ == self@.shown(),
    {
        cat7(
            "Enforced { confined: ",
            shown_bool(self.confined),
            ", allowed: ",
            shown_bool(self.allowed),
            ", mode: ",
            quoted(self.mode.as_str()).as_str(),
            cat3(", reason: ", quoted(self.reason.as_str()).as_str(), " }").as_str(),
        )
    }
}

/// What a confined spawn asks of the spawner.
#[derive(Debug, Clone, PartialEq, Eq)]
pub struct Confinement {
    /// The policy home the verdict was decided under.
    pub policy: PolicyHome,
    /// The address-space limit to apply in the child, where supported.
    pub rlimit_as_bytes: Option<u64>,
    /// Variables added to the child's environment before the scrub runs, and
    /// subject to it. Entries with an empty name or an embedded NUL are ignored.
    pub extra_env: Vec<(String, String)>,
}

/// What a [`Confinement`] says.
#[verifier::ext_equal]
pub struct ConfinementView {
    pub policy: PolicyHomeView,
    pub rlimit_as_bytes: Option<u64>,
    pub extra_env: Seq<(Seq<char>, Seq<char>)>,
}

impl View for Confinement {
    type V = ConfinementView;

    open spec fn view(&self) -> ConfinementView {
        ConfinementView {
            policy: self.policy@,
            rlimit_as_bytes: self.rlimit_as_bytes,
            extra_env: pairs_view(self.extra_env@),
        }
    }
}

/// The confinement hint on a spawn.
#[derive(Debug, Clone, PartialEq, Eq)]
pub enum ConfineHint {
    /// A hint the spawner can read.
    Confine(Confinement),
    /// A hint from elsewhere, which it cannot.
    Foreign,
}

/// What to spawn, and where.
#[derive(Debug, Clone, PartialEq, Eq)]
pub struct Spawn {
    pub argv: Vec<String>,
    pub cwd: Option<String>,
    pub confine: Option<ConfineHint>,
}

/// The values of a list of name and value pairs.
pub open spec fn pairs_view(v: Seq<(String, String)>) -> Seq<(Seq<char>, Seq<char>)> {
    v.map_values(|p: (String, String)| (p.0@, p.1@))
}

/// What a [`ConfineHint`] says; `None` when it cannot be read.
pub open spec fn hint_view(h: ConfineHint) -> Option<ConfinementView> {
    match h {
        ConfineHint::Confine(c) => Some(c@),
        ConfineHint::Foreign => None,
    }
}

/// What a [`Spawn`] says.
pub struct SpawnView {
    pub argv: Seq<Seq<char>>,
    pub cwd: Option<Seq<char>>,
    pub confine: Option<Option<ConfinementView>>,
}

impl View for Spawn {
    type V = SpawnView;

    open spec fn view(&self) -> SpawnView {
        SpawnView {
            argv: texts(self.argv@),
            cwd: text_opt(self.cwd),
            confine: match self.confine {
                Some(h) => Some(hint_view(h)),
                None => None,
            },
        }
    }
}

impl SpawnView {
    /// The coordinates, field by field; of a hint, only that there is one.
    pub open spec fn shown(self) -> Seq<char> {
        "Spawn { argv: "@ + debug_texts(self.argv) + ", cwd: "@ + debug_text_opt(self.cwd)
            + if self.confine is Some {
            ", confine: Some(ConfineHint) }"@
        } else {
            ", confine: None }"@
        }
    }
}

impl Spawn {
    /// The coordinates, field by field.
    pub fn display(&self) -> (r: String)
        ensures
            r@ == self@.shown(),
    {
        cat5(
            "Spawn { argv: ",
            quoted_list(&self.argv).as_str(),
            ", cwd: ",
            quoted_opt(&self.cwd).as_str(),
            if self.confine.is_some() {
                ", confine: Some(ConfineHint) }"
            } else {
                ", confine: None }"
            },
        )
    }
}

/// A copy of a list of name and value pairs.
pub fn copy_pairs(v: &Vec<(String, String)>) -> (r: Vec<(String, String)>)
    ensures
        pairs_view(r@) == pairs_view(v@),
{
    let mut out: Vec<(String, String)> = Vec::new();
    for i in 0..v.len()
        invariant
            out@.len() == i,
            forall|k: int|
                0 <= k < i ==> (#[trigger] out@[k]).0@ == v@[k].0@ && out@[k].1@ == v@[k].1@,
    {
        out.push((v[i].0.clone(), v[i].1.clone()));
    }
    assert(pairs_view(out@) =~= pairs_view(v@));
    out
}

/// What decides whether a command may run, and how.
pub trait Sandbox {
    /// Report on the exact argv about to spawn.
    fn enforce(&self, argv: &Vec<String>, policy: &PolicyHome) -> (r: Result<Enforced, SeamError>);
}

/// A spawned command.
pub trait SpawnHandle {
    /// Wait for the command and hand back what it wrote.
    fn output(&self) -> (r: Result<String, SeamError>);

    /// Stop the command, as far as possible.
    fn cancel(&self);
}

/// What spawns a command exactly as it is described.
pub trait Subprocess {
    type Handle: SpawnHandle;

    /// Spawn a command.
    fn spawn(&self, spawn: &Spawn) -> (r: Result<Self::Handle, SeamError>);
}

} // verus!
