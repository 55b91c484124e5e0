//! The containment walks, as state machines: which hop to open next, and what
//! each outcome means. The caller opens every hop relative to the directory
//! it already holds, never following a link, and reports what came back.

use vstd::prelude::*;

use crate::local_fs::bytes::{fnv1a, fnv1a_hash, push_range};
use crate::local_fs::fault::{
    call_view, io_error, io_failure, open_failure, openat_error, FaultClass, IoFault, IoFaultView,
};
use crate::local_fs::path::{
    canonical, canonical_path, display_names, lemma_normal_names_plain, lemma_shown_names_normalize,
    names_of_display, normal_names, normalize, show_names, shown_names,
};
use crate::seam::error::{failure, outcome, ErrorCode, SeamError, SeamErrorView};
use crate::seam::fs::{Target, TargetKey, TargetView};
use crate::text::{cat, chars_of, debug_text, owned, quoted, same, texts};

verus! {

/// The refusal of a name that holds a NUL.
pub open spec fn nul_failure() -> SeamErrorView {
    failure(ErrorCode::IoError, "path contains an embedded NUL"@)
}

fn has_nul(name: &str) -> (r: bool)
    ensures
        r == name@.contains('\0'),
{
    let cs = chars_of(name);
    for i in 0..cs.len()
        invariant
            cs@ == name@,
            forall|k: int| 0 <= k < i ==> name@[k] != '\0',
    {
        if cs[i] == '\0' {
            assert(name@[i as int] == '\0');
            return true;
        }
    }
    false
}

fn nul_error() -> (r: SeamError)
    ensures
        r@ == nul_failure(),
{
    SeamError::new(ErrorCode::IoError, "path contains an embedded NUL")
}

/// The target that the names under `root` resolve to.
pub open spec fn target_of(root: Seq<u8>, names: Seq<Seq<char>>) -> TargetView {
    TargetView {
        key: TargetKey(fnv1a_hash(canonical_path(root, names))),
        display: shown_names(names),
    }
}

fn make_target(root: &[u8], names: &Vec<String>) -> (r: Target)
    ensures
        r@ == target_of(root@, texts(names@)),
{
    let path = canonical(root, names, names.len());
    assert(texts(names@).take(names@.len() as int) =~= texts(names@));
    Target { key: TargetKey(fnv1a(path.as_slice())), display: show_names(names) }
}

// ---------------------------------------------------------------------------
// Resolving a spelling
// ---------------------------------------------------------------------------

/// What a resolution asks for next.
pub enum ResolveAction {
    /// Open this hop as a directory, refusing links.
    OpenDir(String),
    /// Open this last hop as anything, refusing links.
    OpenFinal(String),
    /// The resolution is over.
    Done(Result<Target, SeamError>),
}

/// What a [`ResolveAction`] says.
pub enum ResolveActionView {
    OpenDir(Seq<char>),
    OpenFinal(Seq<char>),
    Done(Result<TargetView, SeamErrorView>),
}

impl View for ResolveAction {
    type V = ResolveActionView;

    open spec fn view(&self) -> ResolveActionView {
        match *self {
            ResolveAction::OpenDir(name) => ResolveActionView::OpenDir(name@),
            ResolveAction::OpenFinal(name) => ResolveActionView::OpenFinal(name@),
            ResolveAction::Done(r) => ResolveActionView::Done(outcome(r)),
        }
    }
}

/// A resolution in progress: the normalized names and the hop it stands at.
pub struct Resolution {
    root: Vec<u8>,
    names: Vec<String>,
    at: usize,
}

/// What a [`Resolution`] says.
pub struct ResolutionView {
    pub root: Seq<u8>,
    pub names: Seq<Seq<char>>,
    pub at: nat,
}

impl View for Resolution {
    type V = ResolutionView;

    closed spec fn view(&self) -> ResolutionView {
        ResolutionView { root: self.root@, names: texts(self.names@), at: self.at as nat }
    }
}

impl ResolutionView {
    /// The hop exists.
    pub open spec fn wf(self) -> bool {
        self.at < self.names.len()
    }

    /// The request for the hop it stands at.
    pub open spec fn request(self) -> ResolveActionView {
        let name = self.names[self.at as int];
        if name.contains('\0') {
            ResolveActionView::Done(Err(nul_failure()))
        } else if self.at + 1 == self.names.len() {
            ResolveActionView::OpenFinal(name)
        } else {
            ResolveActionView::OpenDir(name)
        }
    }

    /// The state after a hop.
    pub open spec fn after(self, hop: Result<(), IoFaultView>) -> ResolutionView {
        if hop is Ok && self.at + 1 < self.names.len() {
            ResolutionView { at: self.at + 1, ..self }
        } else {
            self
        }
    }

    /// What follows a hop. The last hop may be anything but a link, or
    /// missing (a file to be created). An earlier hop that is missing, or not
    /// a directory yet, ends the walk: the rest is named, not opened.
    pub open spec fn answer(self, hop: Result<(), IoFaultView>) -> ResolveActionView {
        let found = ResolveActionView::Done(Ok(target_of(self.root, self.names)));
        match hop {
            Ok(_) => if self.at + 1 == self.names.len() {
                found
            } else {
                self.after(hop).request()
            },
            Err(f) => if f.class == FaultClass::NotFound || (f.class == FaultClass::NotADirectory
                && self.at + 1 < self.names.len()) {
                found
            } else {
                ResolveActionView::Done(Err(open_failure(f)))
            },
        }
    }
}

/// What resolving `path` under `root` starts with.
pub open spec fn resolve_start(root: Seq<u8>, path: Seq<char>) -> ResolveActionView {
    match normal_names(path) {
        None => ResolveActionView::Done(
            Err(failure(ErrorCode::SandboxDenied, "path escapes the workspace root: "@ + path)),
        ),
        Some(names) => if names.len() == 0 {
            ResolveActionView::Done(Ok(target_of(root, names)))
        } else {
            (ResolutionView { root, names, at: 0 }).request()
        },
    }
}

impl Resolution {
    fn ask(&self) -> (r: ResolveAction)
        requires
            self@.wf(),
        ensures
            r@ == self@.request(),
    {
        let name = self.names[self.at].as_str();
        assert(name@ == self@.names[self@.at as int]);
        if has_nul(name) {
            ResolveAction::Done(Err(nul_error()))
        } else if self.at == self.names.len() - 1 {
            ResolveAction::OpenFinal(owned(name))
        } else {
            ResolveAction::OpenDir(owned(name))
        }
    }

    /// Begin resolving `path`: normalize the spelling, refuse what escapes,
    /// and ask for the first hop. `.` resolves to the workspace itself.
    pub fn begin(root: &[u8], path: &str) -> (r: (Option<Resolution>, ResolveAction))
        ensures
            r.1@ == resolve_start(root@, path@),
            r.0 matches Some(walk) ==> walk@.wf() && normal_names(path@) == Some(walk@.names)
                && walk@.root == root@ && walk@.at == 0,
            r.0 is None ==> r.1@ is Done,
    {
        match normalize(path) {
            None => (
                None,
                ResolveAction::Done(
                    Err(
                        SeamError::with(
                            ErrorCode::SandboxDenied,
                            cat("path escapes the workspace root: ", path),
                        ),
                    ),
                ),
            ),
            Some(names) => {
                if names.len() == 0 {
                    let target = make_target(root, &names);
                    (None, ResolveAction::Done(Ok(target)))
                } else {
                    let mut base: Vec<u8> = Vec::new();
                    push_range(&mut base, root, 0, root.len());
                    assert(base@ =~= root@);
                    let walk = Resolution { root: base, names, at: 0 };
                    let action = walk.ask();
                    (Some(walk), action)
                }
            },
        }
    }

    /// Take in the outcome of the hop that was asked for.
    pub fn hop(&mut self, hop: Result<(), IoFault>) -> (r: ResolveAction)
        requires
            old(self)@.wf(),
        ensures
            final(self)@ == old(self)@.after(call_view(hop)),
            final(self)@.wf(),
            r@ == old(self)@.answer(call_view(hop)),
    {
        let last: bool = self.at == self.names.len() - 1;
        match hop {
            Ok(_) => {
                if last {
                    ResolveAction::Done(Ok(make_target(self.root.as_slice(), &self.names)))
                } else {
                    self.at = self.at + 1;
                    self.ask()
                }
            },
            Err(f) => {
                if f.class == FaultClass::NotFound || (f.class == FaultClass::NotADirectory && !last) {
                    ResolveAction::Done(Ok(make_target(self.root.as_slice(), &self.names)))
                } else {
                    ResolveAction::Done(Err(openat_error(f)))
                }
            },
        }
    }
}

/// How a resolution ends, given the outcomes of its hops in order. `None`
/// while it still waits for an outcome.
pub open spec fn resolved(
    action: ResolveActionView,
    walk: ResolutionView,
    hops: Seq<Result<(), IoFaultView>>,
) -> Option<Result<TargetView, SeamErrorView>>
    decreases hops.len(),
{
    match action {
        ResolveActionView::Done(r) => Some(r),
        _ => if hops.len() == 0 {
            None
        } else {
            resolved(walk.answer(hops[0]), walk.after(hops[0]), hops.skip(1))
        },
    }
}

proof fn lemma_resolved(
    action: ResolveActionView,
    walk: ResolutionView,
    hops: Seq<Result<(), IoFaultView>>,
)
    requires
        walk.wf(),
        action matches ResolveActionView::Done(Ok(t)) ==> t == target_of(walk.root, walk.names),
    ensures
        resolved(action, walk, hops) matches Some(Ok(t)) ==> t == target_of(walk.root, walk.names),
    decreases hops.len(),
{
    if !(action is Done) && hops.len() > 0 {
        lemma_resolved(walk.answer(hops[0]), walk.after(hops[0]), hops.skip(1));
    }
}

/// Whatever the hops report, a resolution that succeeds names the canonical
/// coordinate of the normalized spelling: its key is the hash of that path,
/// its display the names below the root.
pub proof fn law_resolution_names_the_normal_form(
    root: Seq<u8>,
    path: Seq<char>,
    hops: Seq<Result<(), IoFaultView>>,
)
    requires
        normal_names(path) is Some,
    ensures
        ({
            let names = normal_names(path)->Some_0;
            resolved(resolve_start(root, path), ResolutionView { root, names, at: 0 }, hops) matches Some(
                Ok(t),
            ) ==> t == target_of(root, names)
        }),
{
    let names = normal_names(path)->Some_0;
    if names.len() > 0 {
        lemma_resolved(resolve_start(root, path), ResolutionView { root, names, at: 0 }, hops);
    }
}

/// Two spellings with one normal form resolve to one key and one display,
/// whatever the hops of each report.
pub proof fn law_every_spelling_yields_one_key(
    root: Seq<u8>,
    a: Seq<char>,
    b: Seq<char>,
    hops_a: Seq<Result<(), IoFaultView>>,
    hops_b: Seq<Result<(), IoFaultView>>,
)
    requires
        normal_names(a) is Some,
        normal_names(a) == normal_names(b),
    ensures
        ({
            let walk = ResolutionView { root, names: normal_names(a)->Some_0, at: 0 };
            resolved(resolve_start(root, a), walk, hops_a) matches Some(Ok(x)) ==> resolved(
                resolve_start(root, b),
                walk,
                hops_b,
            ) matches Some(Ok(y)) ==> x == y
        }),
{
    law_resolution_names_the_normal_form(root, a, hops_a);
    law_resolution_names_the_normal_form(root, b, hops_b);
}

/// An absolute path, or one that climbs out of the workspace, is refused
/// before any hop is opened.
pub proof fn law_escapes_are_refused(root: Seq<u8>, path: Seq<char>)
    requires
        normal_names(path) is None,
    ensures
        resolve_start(root, path) matches ResolveActionView::Done(Err(e)) && e.code
            == ErrorCode::SandboxDenied,
{
}

/// A link on any hop ends the resolution as an escape.
pub proof fn law_link_hops_are_refused(walk: ResolutionView, f: IoFaultView)
    requires
        walk.wf(),
        f.class == FaultClass::Loop,
    ensures
        walk.answer(Err(f)) matches ResolveActionView::Done(Err(e)) && e.code
            == ErrorCode::SandboxDenied,
{
}

// ---------------------------------------------------------------------------
// Opening a target
// ---------------------------------------------------------------------------

/// What a walk does about a directory on the way that is missing, or no directory
/// yet.
#[derive(Debug, Clone, Copy, PartialEq, Eq, Structural)]
pub enum Missing {
    /// The walk is refused.
    Refused,
    /// The directory is made.
    Made,
    /// The walk is over: the target is absent, and nothing is touched.
    Absent,
}

/// Where an [`OpenWalk`] stands.
#[derive(Debug, Clone, Copy, PartialEq, Eq, Structural)]
pub enum WalkPhase {
    /// Holding the workspace directory itself.
    Root,
    /// Opening the hop as a directory.
    Open,
    /// Creating the missing hop.
    Make,
    /// Opening the hop that was just created.
    Reopen,
    /// Opening the file itself.
    File,
}

/// A place the walk proved contained: the directory the walk came to, the entry's
/// name, the entry's own canonical path, and whether the entry is there.
pub struct Place {
    pub dir: Vec<u8>,
    pub name: String,
    pub canonical: Vec<u8>,
    pub exists: bool,
}

/// What a [`Place`] says.
pub struct PlaceView {
    pub dir: Seq<u8>,
    pub name: Seq<char>,
    pub canonical: Seq<u8>,
    pub exists: bool,
}

impl View for Place {
    type V = PlaceView;

    open spec fn view(&self) -> PlaceView {
        PlaceView {
            dir: self.dir@,
            name: self.name@,
            canonical: self.canonical@,
            exists: self.exists,
        }
    }
}

/// What an [`OpenWalk`] asks for next.
pub enum WalkAction {
    /// Duplicate the workspace directory.
    OpenRoot,
    /// Open this hop as a directory, refusing links.
    OpenDir(String),
    /// Create the directory at this path.
    MakeDir(Vec<u8>),
    /// Open the hop that was just created, refusing links.
    ReopenDir(String),
    /// Open the file itself, refusing links.
    OpenFile(String),
    /// The walk arrived.
    Reached(Place),
    /// The walk was refused.
    Refused(SeamError),
}

/// What a [`WalkAction`] says.
pub enum WalkActionView {
    OpenRoot,
    OpenDir(Seq<char>),
    MakeDir(Seq<u8>),
    ReopenDir(Seq<char>),
    OpenFile(Seq<char>),
    Reached(PlaceView),
    Refused(SeamErrorView),
}

impl View for WalkAction {
    type V = WalkActionView;

    open spec fn view(&self) -> WalkActionView {
        match *self {
            WalkAction::OpenRoot => WalkActionView::OpenRoot,
            WalkAction::OpenDir(name) => WalkActionView::OpenDir(name@),
            WalkAction::MakeDir(path) => WalkActionView::MakeDir(path@),
            WalkAction::ReopenDir(name) => WalkActionView::ReopenDir(name@),
            WalkAction::OpenFile(name) => WalkActionView::OpenFile(name@),
            WalkAction::Reached(place) => WalkActionView::Reached(place@),
            WalkAction::Refused(e) => WalkActionView::Refused(e@),
        }
    }
}

/// A walk to a target (or only to its parent directory), in progress.
pub struct OpenWalk {
    root: Vec<u8>,
    target: Target,
    names: Vec<String>,
    at: usize,
    phase: WalkPhase,
    missing: Missing,
    to_parent: bool,
}

/// What an [`OpenWalk`] says.
pub struct OpenWalkView {
    pub root: Seq<u8>,
    pub target: TargetView,
    /// The names below the root; the last one is the entry itself.
    pub names: Seq<Seq<char>>,
    /// The hop the walk stands at.
    pub at: nat,
    pub phase: WalkPhase,
    /// What is done about missing directories on the way.
    pub missing: Missing,
    /// Whether the walk stops at the parent directory.
    pub to_parent: bool,
}

impl View for OpenWalk {
    type V = OpenWalkView;

    closed spec fn view(&self) -> OpenWalkView {
        OpenWalkView {
            root: self.root@,
            target: self.target@,
            names: texts(self.names@),
            at: self.at as nat,
            phase: self.phase,
            missing: self.missing,
            to_parent: self.to_parent,
        }
    }
}

/// The refusal of a handle whose key is not the hash of the path it names.
pub open spec fn key_failure(target: TargetView) -> SeamErrorView {
    failure(
        ErrorCode::NotObserved,
        "target key does not match its display "@ + debug_text(target.display)
            + "; the handle is stale or tampered"@,
    )
}

/// The key is the identity: it must be the hash of the canonical path.
pub open spec fn key_matches(target: TargetView, canonical: Seq<u8>) -> bool {
    target.key.0 == fnv1a_hash(canonical)
}

fn key_error(target: &Target) -> (r: SeamError)
    ensures
        r@ == key_failure(target@),
{
    SeamError::with(
        ErrorCode::NotObserved,
        crate::text::cat3(
            "target key does not match its display ",
            quoted(target.display.as_str()).as_str(),
            "; the handle is stale or tampered",
        ),
    )
}

/// Whether a hop failed for want of a directory there.
pub open spec fn no_directory(f: IoFaultView) -> bool {
    f.class == FaultClass::NotFound || f.class == FaultClass::NotADirectory
}

impl OpenWalkView {
    /// The walk is at a hop its phase speaks of.
    pub open spec fn wf(self) -> bool {
        match self.phase {
            WalkPhase::Root => true,
            WalkPhase::File => self.names.len() > 0 && self.at + 1 == self.names.len(),
            _ => self.at + 1 < self.names.len(),
        }
    }

    /// The directory the walk holds.
    pub open spec fn dir(self) -> Seq<u8> {
        canonical_path(self.root, self.names.take(self.at as int))
    }

    /// The entry the walk is after.
    pub open spec fn place(self, exists: bool) -> PlaceView {
        PlaceView {
            dir: self.dir(),
            name: self.names.last(),
            canonical: canonical_path(self.root, self.names),
            exists,
        }
    }

    /// The state on arriving at the hop `at` with an open directory in hand.
    pub open spec fn standing(self, at: nat) -> OpenWalkView {
        OpenWalkView {
            at,
            phase: if at + 1 < self.names.len() {
                WalkPhase::Open
            } else {
                WalkPhase::File
            },
            ..self
        }
    }

    /// The request of a walk that stands at a hop with a directory in hand.
    pub open spec fn request(self) -> WalkActionView {
        if self.phase == WalkPhase::File {
            if self.to_parent {
                WalkActionView::Reached(self.place(false))
            } else {
                WalkActionView::OpenFile(self.names.last())
            }
        } else if self.names[self.at as int].contains('\0') {
            WalkActionView::Refused(nul_failure())
        } else {
            WalkActionView::OpenDir(self.names[self.at as int])
        }
    }

    /// The end of the walk: the handle must be the one this path was given.
    pub open spec fn arrival(self, place: PlaceView) -> WalkActionView {
        if key_matches(self.target, place.canonical) {
            WalkActionView::Reached(place)
        } else {
            WalkActionView::Refused(key_failure(self.target))
        }
    }

    /// Whether a failed hop is to be created.
    pub open spec fn creates(self, f: IoFaultView) -> bool {
        self.missing == Missing::Made && no_directory(f)
    }

    /// The state after an outcome.
    pub open spec fn after(self, hop: Result<(), IoFaultView>) -> OpenWalkView {
        match (self.phase, hop) {
            (WalkPhase::Open, Ok(_)) => self.standing(self.at + 1),
            (WalkPhase::Open, Err(f)) => if self.creates(f) {
                OpenWalkView { phase: WalkPhase::Make, ..self }
            } else {
                self
            },
            (WalkPhase::Make, Ok(_)) => OpenWalkView { phase: WalkPhase::Reopen, ..self },
            (WalkPhase::Reopen, Ok(_)) => self.standing(self.at + 1),
            _ => self,
        }
    }

    /// What follows an outcome. A missing hop is created when asked, then
    /// opened again without following links, or ends the walk with an absent
    /// target; a link on any hop is an escape; a missing file is no failure of
    /// the walk.
    pub open spec fn answer(self, hop: Result<(), IoFaultView>) -> WalkActionView {
        match self.phase {
            WalkPhase::Root => match hop {
                Ok(_) => WalkActionView::Reached(
                    PlaceView {
                        dir: self.root,
                        name: Seq::empty(),
                        canonical: self.root,
                        exists: true,
                    },
                ),
                Err(f) => WalkActionView::Refused(io_failure(f)),
            },
            WalkPhase::Open => match hop {
                Ok(_) => self.after(hop).request(),
                Err(f) => if self.creates(f) {
                    WalkActionView::MakeDir(
                        canonical_path(self.root, self.names.take(self.at as int + 1)),
                    )
                } else if self.missing == Missing::Absent && no_directory(f) {
                    self.arrival(self.place(false))
                } else {
                    WalkActionView::Refused(open_failure(f))
                },
            },
            WalkPhase::Make => match hop {
                Ok(_) => WalkActionView::ReopenDir(self.names[self.at as int]),
                Err(f) => WalkActionView::Refused(io_failure(f)),
            },
            WalkPhase::Reopen => match hop {
                Ok(_) => self.after(hop).request(),
                Err(f) => WalkActionView::Refused(io_failure(f)),
            },
            WalkPhase::File => match hop {
                Ok(_) => self.arrival(self.place(true)),
                Err(f) => if f.class == FaultClass::NotFound {
                    self.arrival(self.place(false))
                } else {
                    WalkActionView::Refused(open_failure(f))
                },
            },
        }
    }
}

/// The refusal of a display that is not workspace-relative.
pub open spec fn display_failure(display: Seq<char>) -> SeamErrorView {
    failure(
        ErrorCode::SandboxDenied,
        "target display is not workspace-relative: "@ + debug_text(display),
    )
}

/// The walk that begins for a target, once its display is workspace-relative.
pub open spec fn walk_start(
    root: Seq<u8>,
    target: TargetView,
    names: Seq<Seq<char>>,
    missing: Missing,
    to_parent: bool,
) -> OpenWalkView {
    let walk = OpenWalkView { root, target, names, at: 0, phase: WalkPhase::Root, missing, to_parent };
    if target.display == "."@ && !to_parent {
        walk
    } else {
        walk.standing(0)
    }
}

/// The names a walk descends through: a display that comes to nothing names
/// an entry with an empty name in the workspace directory.
pub open spec fn walk_names(display: Seq<char>) -> Option<Seq<Seq<char>>> {
    match display_names(display) {
        None => None,
        Some(names) => if names.len() == 0 {
            Some(seq![Seq::empty()])
        } else {
            Some(names)
        },
    }
}

/// What opening `target` starts with.
pub open spec fn open_start(
    root: Seq<u8>,
    target: TargetView,
    missing: Missing,
    to_parent: bool,
) -> WalkActionView {
    if target.display == "."@ && !to_parent {
        if key_matches(target, root) {
            WalkActionView::OpenRoot
        } else {
            WalkActionView::Refused(key_failure(target))
        }
    } else {
        match walk_names(target.display) {
            None => WalkActionView::Refused(display_failure(target.display)),
            Some(names) => if names.last().contains('\0') {
                WalkActionView::Refused(nul_failure())
            } else {
                walk_start(root, target, names, missing, to_parent).request()
            },
        }
    }
}

impl OpenWalk {
    fn stand(&mut self, at: usize)
        requires
            at < old(self)@.names.len(),
        ensures
            final(self)@ == old(self)@.standing(at as nat),
    {
        self.at = at;
        self.phase = if at < self.names.len() - 1 {
            WalkPhase::Open
        } else {
            WalkPhase::File
        };
    }

    fn place(&self, exists: bool) -> (r: Place)
        requires
            self@.at < self@.names.len(),
        ensures
            r@ == self@.place(exists),
    {
        let last: usize = self.names.len() - 1;
        let dir = canonical(self.root.as_slice(), &self.names, self.at);
        let path = canonical(self.root.as_slice(), &self.names, self.names.len());
        assert(texts(self.names@).take(self.names@.len() as int) =~= texts(self.names@));
        Place { dir, name: self.names[last].clone(), canonical: path, exists }
    }

    fn ask(&self) -> (r: WalkAction)
        requires
            self@.wf(),
            self@.phase == WalkPhase::Open || self@.phase == WalkPhase::File,
        ensures
            r@ == self@.request(),
    {
        let name = self.names[self.at].as_str();
        assert(name@ == self@.names[self@.at as int]);
        if self.phase == WalkPhase::File {
            if self.to_parent {
                WalkAction::Reached(self.place(false))
            } else {
                WalkAction::OpenFile(owned(name))
            }
        } else if has_nul(name) {
            WalkAction::Refused(nul_error())
        } else {
            WalkAction::OpenDir(owned(name))
        }
    }

    fn arrive(&self, place: Place) -> (r: WalkAction)
        ensures
            r@ == self@.arrival(place@),
    {
        if self.target.key.0 == fnv1a(place.canonical.as_slice()) {
            WalkAction::Reached(place)
        } else {
            WalkAction::Refused(key_error(&self.target))
        }
    }

    /// Begin the walk to `target` under `root`. What becomes of a missing
    /// directory on the way, `missing` says; with `to_parent`, the walk stops at
    /// the directory that holds the target.
    pub fn begin(root: &[u8], target: &Target, missing: Missing, to_parent: bool) -> (r: (
        Option<OpenWalk>,
        WalkAction,
    ))
        ensures
            r.1@ == open_start(root@, target@, missing, to_parent),
            r.0 matches Some(walk) ==> walk@.wf() && (target@.display == "."@ && !to_parent || (
            walk_names(target@.display) == Some(walk@.names) && walk@ == walk_start(
                root@,
                target@,
                walk@.names,
                missing,
                to_parent,
            ))),
            r.0 matches Some(walk) ==> walk@.root == root@ && walk@.target == target@ && (
            target@.display == "."@ && !to_parent ==> walk@.phase == WalkPhase::Root),
            r.0 is None ==> r.1@ is Refused,
    {
        let mut base: Vec<u8> = Vec::new();
        push_range(&mut base, root, 0, root.len());
        assert(base@ =~= root@);
        if same(target.display.as_str(), ".") && !to_parent {
            if target.key.0 == fnv1a(root) {
                let walk = OpenWalk {
                    root: base,
                    target: target.copy(),
                    names: Vec::new(),
                    at: 0,
                    phase: WalkPhase::Root,
                    missing,
                    to_parent,
                };
                return (Some(walk), WalkAction::OpenRoot);
            }
            return (None, WalkAction::Refused(key_error(target)));
        }
        match names_of_display(target.display.as_str()) {
            None => {
                let e = SeamError::with(
                    ErrorCode::SandboxDenied,
                    cat(
                        "target display is not workspace-relative: ",
                        quoted(target.display.as_str()).as_str(),
                    ),
                );
                (None, WalkAction::Refused(e))
            },
            Some(found) => {
                let mut names = found;
                if names.len() == 0 {
                    names.push(String::new());
                    assert(texts(names@) =~= seq![Seq::<char>::empty()]);
                }
                let last: usize = names.len() - 1;
                assert(texts(names@).last() == names@[last as int]@);
                if has_nul(names[last].as_str()) {
                    return (None, WalkAction::Refused(nul_error()));
                }
                let mut walk = OpenWalk {
                    root: base,
                    target: target.copy(),
                    names,
                    at: 0,
                    phase: WalkPhase::Root,
                    missing,
                    to_parent,
                };
                walk.stand(0);
                let action = walk.ask();
                (Some(walk), action)
            },
        }
    }

    /// Take in the outcome of what was asked for.
    pub fn hop(&mut self, hop: Result<(), IoFault>) -> (r: WalkAction)
        requires
            old(self)@.wf(),
        ensures
            final(self)@ == old(self)@.after(call_view(hop)),
            final(self)@.wf(),
            r@ == old(self)@.answer(call_view(hop)),
    {
        match self.phase {
            WalkPhase::Root => match hop {
                Ok(_) => WalkAction::Reached(
                    Place {
                        dir: self.root.clone(),
                        name: String::new(),
                        canonical: self.root.clone(),
                        exists: true,
                    },
                ),
                Err(f) => WalkAction::Refused(io_error(f)),
            },
            WalkPhase::Open => match hop {
                Ok(_) => {
                    assert(self.at < self.names.len());
                    let next: usize = self.at + 1;
                    self.stand(next);
                    self.ask()
                },
                Err(f) => {
                    let none: bool = f.class == FaultClass::NotFound || f.class
                        == FaultClass::NotADirectory;
                    if self.missing == Missing::Made && none {
                        self.phase = WalkPhase::Make;
                        WalkAction::MakeDir(
                            canonical(self.root.as_slice(), &self.names, self.at + 1),
                        )
                    } else if self.missing == Missing::Absent && none {
                        let place = self.place(false);
                        self.arrive(place)
                    } else {
                        WalkAction::Refused(openat_error(f))
                    }
                },
            },
            WalkPhase::Make => match hop {
                Ok(_) => {
                    self.phase = WalkPhase::Reopen;
                    WalkAction::ReopenDir(self.names[self.at].clone())
                },
                Err(f) => WalkAction::Refused(io_error(f)),
            },
            WalkPhase::Reopen => match hop {
                Ok(_) => {
                    assert(self.at < self.names.len());
                    let next: usize = self.at + 1;
                    self.stand(next);
                    self.ask()
                },
                Err(f) => WalkAction::Refused(io_error(f)),
            },
            WalkPhase::File => match hop {
                Ok(_) => {
                    let place = self.place(true);
                    self.arrive(place)
                },
                Err(f) => {
                    if f.class == FaultClass::NotFound {
                        let place = self.place(false);
                        self.arrive(place)
                    } else {
                        WalkAction::Refused(openat_error(f))
                    }
                },
            },
        }
    }
}

/// A target that was resolved here opens at the very path its key was hashed
/// from: the walk over its display descends through the same names, and the
/// key check at the end passes.
pub proof fn law_resolved_targets_open(root: Seq<u8>, path: Seq<char>, exists: bool)
    requires
        normal_names(path) is Some,
        normal_names(path)->Some_0.len() > 0,
    ensures
        ({
            let names = normal_names(path)->Some_0;
            let target = target_of(root, names);
            &&& walk_names(target.display) == Some(names)
            &&& forall|walk: OpenWalkView|
                walk.target == target && walk.root == root && walk.names == names ==> (
                #[trigger] walk.arrival(walk.place(exists))) == WalkActionView::Reached(
                    walk.place(exists),
                )
        }),
{
    let names = normal_names(path)->Some_0;
    lemma_normal_names_plain(path);
    lemma_shown_names_normalize(names);
}

/// A handle whose key is not the hash of the path its display names never
/// reaches a file.
pub proof fn law_forged_handles_never_arrive(walk: OpenWalkView, exists: bool)
    requires
        !key_matches(walk.target, canonical_path(walk.root, walk.names)),
    ensures
        walk.arrival(walk.place(exists)) matches WalkActionView::Refused(e) && e.code
            == ErrorCode::NotObserved,
{
}

/// A walk without leave to create never asks for a directory to be made.
pub proof fn law_no_directory_is_made_unasked(walk: OpenWalkView, hop: Result<(), IoFaultView>)
    requires
        walk.wf(),
        walk.missing != Missing::Made,
        walk.phase != WalkPhase::Make && walk.phase != WalkPhase::Reopen,
    ensures
        !(walk.answer(hop) is MakeDir),
        walk.after(hop).phase != WalkPhase::Make && walk.after(hop).phase != WalkPhase::Reopen,
        walk.after(hop).missing == walk.missing,
{
}

} // verus!
