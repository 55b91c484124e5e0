//! One write or edit, from its target to its version, as a state machine. It asks
//! for one action at a time: a walk that touches nothing, the policy's decision,
//! and only then what changes the tree.

use vstd::prelude::*;

use crate::local_fs::events::{FsEditIntent, FsWriteIntent, Intent, IntentEventView};
use crate::local_fs::fault::{call_view, io_failure, IoFault, IoFaultView};
use crate::local_fs::provider::{
    edit_result, stamp_of, tmp_name_of, CommitPlan, FileKind, LocalFileSystem, LocalFsView,
    MutateStep,
};
use crate::local_fs::walk::{Missing, Place, PlaceView};
use crate::seam::error::{failure, ErrorCode, SeamError, SeamErrorView};
use crate::seam::fs::{Edit, MutationResult, Target, TargetView, VersionToken, WriteGuard};

verus! {

/// What a mutation makes of the file.
pub enum Change {
    /// These are the new contents.
    Write(Vec<u8>),
    /// The one match is replaced.
    Edit(Edit),
}

/// What a [`Change`] says.
pub enum ChangeView {
    Write(Seq<u8>),
    Edit { find: Seq<u8>, replace: Seq<u8> },
}

impl View for Change {
    type V = ChangeView;

    open spec fn view(&self) -> ChangeView {
        match *self {
            Change::Write(contents) => ChangeView::Write(contents@),
            Change::Edit(edit) => ChangeView::Edit {
                find: edit.find@,
                replace: edit.replace@,
            },
        }
    }
}

/// What a mutation asks for next.
pub enum MutationAction {
    /// Walk to the target, or only to the directory that holds it.
    Walk { missing: Missing, to_parent: bool },
    /// Put the question to the mounted policy's write listener.
    AskWrite(FsWriteIntent),
    /// Put the question to the mounted policy's edit listener.
    AskEdit(FsEditIntent),
    /// Read all of the file that the walk opened.
    ReadAll,
    /// Write the contents to the sibling `tmp_name`, and rename it to `name`, in
    /// the directory that the walk came to.
    Replace { tmp_name: String, name: String, contents: Vec<u8> },
    /// The mutation is over.
    Done(Result<MutationResult, SeamError>),
}

/// What a [`MutationAction`] says.
pub enum MutationActionView {
    Walk { missing: Missing, to_parent: bool },
    AskWrite(IntentEventView),
    AskEdit(IntentEventView),
    ReadAll,
    Replace { tmp_name: Seq<char>, name: Seq<char>, contents: Seq<u8> },
    Done(Result<VersionToken, SeamErrorView>),
}

impl View for MutationAction {
    type V = MutationActionView;

    open spec fn view(&self) -> MutationActionView {
        match *self {
            MutationAction::Walk { missing, to_parent } => MutationActionView::Walk {
                missing,
                to_parent,
            },
            MutationAction::AskWrite(event) => MutationActionView::AskWrite(event@),
            MutationAction::AskEdit(event) => MutationActionView::AskEdit(event@),
            MutationAction::ReadAll => MutationActionView::ReadAll,
            MutationAction::Replace { tmp_name, name, contents } => MutationActionView::Replace {
                tmp_name: tmp_name@,
                name: name@,
                contents: contents@,
            },
            MutationAction::Done(Ok(result)) => MutationActionView::Done(Ok(result.version)),
            MutationAction::Done(Err(e)) => MutationActionView::Done(Err(e@)),
        }
    }
}

/// What came of the action that was asked for.
pub enum MutationEvent {
    /// The walk arrived, at an entry of this kind if at any, or was refused.
    Walked(Result<(Place, Option<FileKind>), SeamError>),
    /// The policy answered.
    Answered(Intent),
    /// The file was read.
    Bytes(Result<Vec<u8>, SeamError>),
    /// The rename landed, or did not.
    Landed(Result<(), IoFault>),
}

/// What a [`MutationEvent`] says.
pub enum MutationEventView {
    Walked(Result<(PlaceView, Option<FileKind>), SeamErrorView>),
    Answered(Option<Seq<char>>),
    Bytes(Result<Seq<u8>, SeamErrorView>),
    Landed(Result<(), IoFaultView>),
}

impl View for MutationEvent {
    type V = MutationEventView;

    open spec fn view(&self) -> MutationEventView {
        match *self {
            MutationEvent::Walked(Ok((place, kind))) => MutationEventView::Walked(
                Ok((place@, kind)),
            ),
            MutationEvent::Walked(Err(e)) => MutationEventView::Walked(Err(e@)),
            MutationEvent::Answered(intent) => MutationEventView::Answered(intent@),
            MutationEvent::Bytes(Ok(bytes)) => MutationEventView::Bytes(Ok(bytes@)),
            MutationEvent::Bytes(Err(e)) => MutationEventView::Bytes(Err(e@)),
            MutationEvent::Landed(landed) => MutationEventView::Landed(call_view(landed)),
        }
    }
}

/// Where a mutation stands: what it waits for, and what it has found.
pub enum MutationStage {
    /// Waiting for the walk to the target.
    Looking,
    /// Waiting for the policy, about the target at this path.
    Asking { path: Vec<u8>, exists: bool },
    /// Waiting for the bytes of the file to edit.
    Reading,
    /// Waiting for the walk to the directory, with the new contents in hand.
    Entering(Vec<u8>),
    /// Waiting for the rename to this path.
    Replacing { plan: CommitPlan, path: Vec<u8> },
}

/// What a [`MutationStage`] says.
pub enum MutationStageView {
    Looking,
    Asking { path: Seq<u8>, exists: bool },
    Reading,
    Entering(Seq<u8>),
    Replacing { counter: u64, token: VersionToken, tmp_name: Seq<char>, path: Seq<u8> },
    Over,
}

impl View for MutationStage {
    type V = MutationStageView;

    open spec fn view(&self) -> MutationStageView {
        match *self {
            MutationStage::Looking => MutationStageView::Looking,
            MutationStage::Asking { path, exists } => MutationStageView::Asking {
                path: path@,
                exists,
            },
            MutationStage::Reading => MutationStageView::Reading,
            MutationStage::Entering(contents) => MutationStageView::Entering(contents@),
            MutationStage::Replacing { plan, path } => MutationStageView::Replacing {
                counter: plan.counter,
                token: plan.token,
                tmp_name: plan.tmp_name@,
                path: path@,
            },
        }
    }
}

/// A mutation in progress.
pub struct Mutation {
    target: Target,
    change: Change,
    guard: Option<WriteGuard>,
    thread: u64,
    stage: MutationStage,
}

/// What a [`Mutation`] says.
pub struct MutationView {
    pub target: TargetView,
    pub change: ChangeView,
    pub guard: Option<WriteGuard>,
    /// The caller's thread, which goes into the name of the temporary sibling.
    pub thread: u64,
    pub stage: MutationStageView,
}

impl View for Mutation {
    type V = MutationView;

    closed spec fn view(&self) -> MutationView {
        MutationView {
            target: self.target@,
            change: self.change@,
            guard: self.guard,
            thread: self.thread,
            stage: self.stage@,
        }
    }
}

/// A point of a mutation: the provider, where the mutation stands, and what it
/// asks for.
pub struct MutationPoint {
    pub fs: LocalFsView,
    pub stage: MutationStageView,
    pub action: MutationActionView,
}

/// The end of a mutation.
pub open spec fn over(fs: LocalFsView, result: Result<VersionToken, SeamErrorView>) -> MutationPoint {
    MutationPoint { fs, stage: MutationStageView::Over, action: MutationActionView::Done(result) }
}

/// The question a change puts to the policy: a write asks the write listener, an edit
/// the edit listener.
pub open spec fn ask(change: ChangeView, event: IntentEventView) -> MutationActionView {
    match change {
        ChangeView::Write(_) => MutationActionView::AskWrite(event),
        ChangeView::Edit { .. } => MutationActionView::AskEdit(event),
    }
}

/// The walk to the target: an absent directory is no refusal of a write, which
/// may make it later, and nothing is made yet.
pub open spec fn look(change: ChangeView) -> MutationActionView {
    MutationActionView::Walk {
        missing: match change {
            ChangeView::Write(_) => Missing::Absent,
            ChangeView::Edit { .. } => Missing::Refused,
        },
        to_parent: false,
    }
}

/// The walk to the directory that holds the target, made where a write needs it.
pub open spec fn enter(change: ChangeView) -> MutationActionView {
    MutationActionView::Walk {
        missing: match change {
            ChangeView::Write(_) => Missing::Made,
            ChangeView::Edit { .. } => Missing::Refused,
        },
        to_parent: true,
    }
}

impl MutationView {
    /// A mutation before its first walk.
    pub open spec fn start(
        target: TargetView,
        change: ChangeView,
        guard: Option<WriteGuard>,
        thread: u64,
    ) -> MutationView {
        MutationView { target, change, guard, thread, stage: MutationStageView::Looking }
    }

    /// Only a file that is there is read or asked about for an edit.
    pub open spec fn wf(self) -> bool {
        match self.stage {
            MutationStageView::Asking { exists, .. } => self.change is Edit ==> exists,
            MutationStageView::Reading => self.change is Edit,
            _ => true,
        }
    }

    /// Whether the event is an outcome of what was asked for.
    pub open spec fn expects(self, event: MutationEventView) -> bool {
        match self.stage {
            MutationStageView::Looking => event is Walked,
            MutationStageView::Asking { .. } => event is Answered,
            MutationStageView::Reading => event is Bytes,
            MutationStageView::Entering(_) => event is Walked,
            MutationStageView::Replacing { .. } => event is Landed,
            MutationStageView::Over => false,
        }
    }

    /// What follows the verdict on the guard.
    pub open spec fn guarded(self, fs: LocalFsView, path: Seq<u8>, exists: bool) -> MutationPoint {
        match fs.guard_verdict(path, self.guard, exists) {
            Err(e) => over(fs, Err(e)),
            Ok(_) => match self.change {
                ChangeView::Write(contents) => MutationPoint {
                    fs,
                    stage: MutationStageView::Entering(contents),
                    action: enter(self.change),
                },
                ChangeView::Edit { .. } => MutationPoint {
                    fs,
                    stage: MutationStageView::Reading,
                    action: MutationActionView::ReadAll,
                },
            },
        }
    }

    /// What follows the walk to the target. A directory is never written, and a
    /// missing file is never edited. A mounted policy is asked, and the guard is
    /// checked once it has answered.
    pub open spec fn looked(
        self,
        fs: LocalFsView,
        path: Seq<u8>,
        kind: Option<FileKind>,
    ) -> MutationPoint {
        if self.change is Write && kind == Some(FileKind::Directory) {
            over(
                fs,
                Err(
                    failure(
                        ErrorCode::NotADirectory,
                        "write target is a directory: "@ + self.target.display,
                    ),
                ),
            )
        } else if self.change is Edit && kind is None {
            over(
                fs,
                Err(failure(ErrorCode::NotFound, "no such file: "@ + self.target.display)),
            )
        } else {
            match fs.actor {
                Some(actor) => MutationPoint {
                    fs,
                    stage: MutationStageView::Asking { path, exists: kind is Some },
                    action: ask(self.change, IntentEventView { actor, target: self.target }),
                },
                None => self.guarded(fs, path, kind is Some),
            }
        }
    }

    /// What follows the policy's answer.
    pub open spec fn answered(
        self,
        fs: LocalFsView,
        path: Seq<u8>,
        exists: bool,
        denied: Option<Seq<char>>,
    ) -> MutationPoint {
        match denied {
            Some(reason) => {
                let refusal = match self.change {
                    ChangeView::Write(_) => "write refused by policy: "@,
                    ChangeView::Edit { .. } => "edit refused by policy: "@,
                };
                over(fs, Err(failure(ErrorCode::SandboxDenied, refusal + reason)))
            },
            None => self.guarded(fs, path, exists),
        }
    }

    /// What follows an outcome.
    pub open spec fn moved(self, fs: LocalFsView, event: MutationEventView) -> MutationPoint {
        match (self.stage, event) {
            (MutationStageView::Looking, MutationEventView::Walked(Ok((place, kind)))) => {
                self.looked(fs, place.canonical, kind)
            },
            (
                MutationStageView::Asking { path, exists },
                MutationEventView::Answered(denied),
            ) => self.answered(fs, path, exists, denied),
            (MutationStageView::Reading, MutationEventView::Bytes(Ok(bytes))) => {
                match edit_result(
                    self.target.display,
                    bytes,
                    self.change->Edit_find,
                    self.change->Edit_replace,
                ) {
                    Err(e) => over(fs, Err(e)),
                    Ok(next) => MutationPoint {
                        fs,
                        stage: MutationStageView::Entering(next),
                        action: enter(self.change),
                    },
                }
            },
            (
                MutationStageView::Entering(contents),
                MutationEventView::Walked(Ok((place, _))),
            ) => {
                let counter = fs.next_version;
                let token = stamp_of(fs.nonce, counter);
                MutationPoint {
                    fs: fs.begun(),
                    stage: MutationStageView::Replacing {
                        counter,
                        token: VersionToken(token),
                        tmp_name: tmp_name_of(place.name, token, self.thread, counter),
                        path: place.canonical,
                    },
                    action: MutationActionView::Replace {
                        tmp_name: tmp_name_of(place.name, token, self.thread, counter),
                        name: place.name,
                        contents,
                    },
                }
            },
            (
                MutationStageView::Replacing { counter, token, path, .. },
                MutationEventView::Landed(landed),
            ) => match landed {
                Ok(_) => over(fs.landed(path, counter), Ok(token)),
                Err(f) => over(fs, Err(io_failure(f))),
            },
            (_, MutationEventView::Walked(Err(e))) => over(fs, Err(e)),
            (_, MutationEventView::Bytes(Err(e))) => over(fs, Err(e)),
            _ => arbitrary(),
        }
    }
}

/// What a mutation says, once it may be over.
pub open spec fn stage_left(m: Option<Mutation>) -> MutationStageView {
    match m {
        Some(m) => m@.stage,
        None => MutationStageView::Over,
    }
}

fn finish(result: Result<MutationResult, SeamError>) -> (r: (Option<Mutation>, MutationAction))
    ensures
        r.0 is None,
        r.1@ == (MutationAction::Done(result))@,
{
    (None, MutationAction::Done(result))
}

impl Mutation {
    /// Begin a mutation of `target`.
    pub fn begin(target: &Target, change: Change, guard: Option<WriteGuard>, thread: u64) -> (r: (
        Mutation,
        MutationAction,
    ))
        ensures
            r.0@ == MutationView::start(target@, change@, guard, thread),
            r.0@.wf(),
            r.1@ == look(change@),
    {
        let missing = match &change {
            Change::Write(_) => Missing::Absent,
            Change::Edit(_) => Missing::Refused,
        };
        let m = Mutation { target: target.copy(), change, guard, thread, stage: MutationStage::Looking };
        (m, MutationAction::Walk { missing, to_parent: false })
    }

    /// Take in the outcome of what was asked for.
    pub fn resume(self, fs: &mut LocalFileSystem, event: MutationEvent) -> (r: (
        Option<Mutation>,
        MutationAction,
    ))
        requires
            old(fs).wf(),
            self@.wf(),
            self@.expects(event@),
        ensures
            final(fs).wf(),
            final(fs)@ == self@.moved(old(fs)@, event@).fs,
            r.1@ == self@.moved(old(fs)@, event@).action,
            stage_left(r.0) == self@.moved(old(fs)@, event@).stage,
            r.0 matches Some(m) ==> m@ == (MutationView {
                stage: self@.moved(old(fs)@, event@).stage,
                ..self@
            }),
            r.0 matches Some(m) ==> m@.wf(),
            r.0 is None <==> r.1@ is Done,
    {
        let Mutation { target, change, guard, thread, stage } = self;
        match (stage, event) {
            (_, MutationEvent::Walked(Err(e))) => finish(Err(e)),
            (_, MutationEvent::Bytes(Err(e))) => finish(Err(e)),
            (MutationStage::Looking, MutationEvent::Walked(Ok((place, kind)))) => {
                let path = place.canonical;
                let exists: bool = kind.is_some();
                let step = match &change {
                    Change::Write(_) => fs.write_opened(&target, kind, &path, guard),
                    Change::Edit(_) => fs.edit_opened(&target, exists, &path, guard),
                };
                match step {
                    MutateStep::AskWrite(event) => (
                        Some(
                            Mutation {
                                target,
                                change,
                                guard,
                                thread,
                                stage: MutationStage::Asking { path, exists },
                            },
                        ),
                        MutationAction::AskWrite(event),
                    ),
                    MutateStep::AskEdit(event) => (
                        Some(
                            Mutation {
                                target,
                                change,
                                guard,
                                thread,
                                stage: MutationStage::Asking { path, exists },
                            },
                        ),
                        MutationAction::AskEdit(event),
                    ),
                    MutateStep::Refused(e) => finish(Err(e)),
                    MutateStep::Proceed => go_on(target, change, guard, thread),
                }
            },
            (MutationStage::Asking { path, exists }, MutationEvent::Answered(intent)) => {
                let step = match &change {
                    Change::Write(_) => fs.decide_write(intent, &path, guard, exists),
                    Change::Edit(_) => fs.decide_edit(intent, &path, guard),
                };
                match step {
                    MutateStep::Refused(e) => finish(Err(e)),
                    _ => go_on(target, change, guard, thread),
                }
            },
            (MutationStage::Reading, MutationEvent::Bytes(Ok(bytes))) => match &change {
                Change::Edit(edit) => match LocalFileSystem::edit(&target, bytes.as_slice(), edit) {
                    Err(e) => finish(Err(e)),
                    Ok(next) => {
                        let m = Mutation {
                            target,
                            change,
                            guard,
                            thread,
                            stage: MutationStage::Entering(next),
                        };
                        (Some(m), MutationAction::Walk { missing: Missing::Refused, to_parent: true })
                    },
                },
                Change::Write(_) => {
                    assert(false);
                    go_on(target, change, guard, thread)
                },
            },
            (MutationStage::Entering(contents), MutationEvent::Walked(Ok((place, _)))) => {
                let plan = fs.commit_atomic(place.name.as_str(), thread);
                let tmp_name = plan.tmp_name.clone();
                let m = Mutation {
                    target,
                    change,
                    guard,
                    thread,
                    stage: MutationStage::Replacing { plan, path: place.canonical },
                };
                (Some(m), MutationAction::Replace { tmp_name, name: place.name, contents })
            },
            (MutationStage::Replacing { plan, path }, MutationEvent::Landed(landed)) => {
                finish(fs.committed(plan, path, landed))
            },
            _ => {
                assert(false);
                go_on(target, change, guard, thread)
            },
        }
    }
}

/// The guard holds: a write walks to its directory, an edit reads its file.
fn go_on(target: Target, change: Change, guard: Option<WriteGuard>, thread: u64) -> (r: (
    Option<Mutation>,
    MutationAction,
))
    ensures
        r.0 matches Some(m) && m@ == (MutationView {
            target: target@,
            change: change@,
            guard,
            thread,
            stage: match change@ {
                ChangeView::Write(contents) => MutationStageView::Entering(contents),
                ChangeView::Edit { .. } => MutationStageView::Reading,
            },
        }),
        r.1@ == (match change@ {
            ChangeView::Write(_) => enter(change@),
            ChangeView::Edit { .. } => MutationActionView::ReadAll,
        }),
{
    match change {
        Change::Write(contents) => {
            let kept = contents.clone();
            let m = Mutation {
                target,
                change: Change::Write(contents),
                guard,
                thread,
                stage: MutationStage::Entering(kept),
            };
            (Some(m), MutationAction::Walk { missing: Missing::Made, to_parent: true })
        },
        Change::Edit(edit) => {
            let m = Mutation {
                target,
                change: Change::Edit(edit),
                guard,
                thread,
                stage: MutationStage::Reading,
            };
            (Some(m), MutationAction::ReadAll)
        },
    }
}

// ---------------------------------------------------------------------------
// Laws
// ---------------------------------------------------------------------------

/// Where a mutation stands once `events` came back, in order.
pub open spec fn played(
    m: MutationView,
    fs: LocalFsView,
    events: Seq<MutationEventView>,
) -> MutationPoint
    decreases events.len(),
{
    if events.len() == 0 {
        MutationPoint { fs, stage: m.stage, action: look(m.change) }
    } else {
        let before = played(m, fs, events.drop_last());
        MutationView { stage: before.stage, ..m }.moved(before.fs, events.last())
    }
}

/// Whether each of the events is an outcome of what was asked for when it came.
pub open spec fn fits(m: MutationView, fs: LocalFsView, events: Seq<MutationEventView>) -> bool
    decreases events.len(),
{
    events.len() == 0 || (fits(m, fs, events.drop_last()) && (MutationView {
        stage: played(m, fs, events.drop_last()).stage,
        ..m
    }).expects(events.last()))
}

/// Whether an action changes the tree, or may.
pub open spec fn touches(action: MutationActionView) -> bool {
    match action {
        MutationActionView::Walk { missing, .. } => missing == Missing::Made,
        MutationActionView::Replace { .. } => true,
        _ => false,
    }
}

/// How far a mutation has come.
pub open spec fn rank(stage: MutationStageView) -> nat {
    match stage {
        MutationStageView::Looking => 0,
        MutationStageView::Asking { .. } => 1,
        MutationStageView::Reading => 2,
        MutationStageView::Entering(_) => 3,
        MutationStageView::Replacing { .. } => 4,
        MutationStageView::Over => 5,
    }
}

/// A mutation looks, asks, reads, enters and replaces in that order, and does none
/// of it twice: each outcome brings it further, to its end after five at most.
pub proof fn law_a_mutation_goes_forward(
    m: MutationView,
    fs: LocalFsView,
    event: MutationEventView,
)
    requires
        m.expects(event),
    ensures
        rank(m.stage) < rank(m.moved(fs, event).stage) <= 5,
        m.moved(fs, event).stage is Over <==> m.moved(fs, event).action is Done,
{
}

/// Whether the events hold an answer that lets the mutation proceed.
pub open spec fn allowed(events: Seq<MutationEventView>) -> bool {
    exists|i: int|
        0 <= i < events.len() && #[trigger] events[i] == MutationEventView::Answered(None)
}

/// With a policy mounted, nothing in the tree or in the version record is touched
/// unless the policy allowed it and the guard held, whatever else came back. So a
/// mutation that is denied leaves no directory behind, and no file.
pub proof fn law_nothing_is_touched_unless_allowed(
    m: MutationView,
    fs: LocalFsView,
    events: Seq<MutationEventView>,
)
    requires
        fs.actor is Some,
        m.stage is Looking,
        fits(m, fs, events),
    ensures
        ({
            let at = played(m, fs, events);
            touches(at.action) || at.fs != fs ==> allowed(events) && exists|
                path: Seq<u8>,
                exists: bool,
            | #[trigger]
                fs.guard_verdict(path, m.guard, exists) is Ok
        }),
{
    lemma_untouched(m, fs, events);
}

/// Where a mutation has not been let through, it only looks, asks or is over.
proof fn lemma_untouched(m: MutationView, fs: LocalFsView, events: Seq<MutationEventView>)
    requires
        fs.actor is Some,
        m.stage is Looking,
        fits(m, fs, events),
    ensures
        ({
            let at = played(m, fs, events);
            ||| at.fs == fs && !touches(at.action) && (at.stage is Looking || at.stage is Asking
                || at.stage is Over)
            ||| allowed(events) && exists|path: Seq<u8>, exists: bool| #[trigger]
                fs.guard_verdict(path, m.guard, exists) is Ok
        }),
    decreases events.len(),
{
    if events.len() > 0 {
        let first = events.drop_last();
        lemma_untouched(m, fs, first);
        let before = played(m, fs, first);
        if allowed(first) {
            let i = choose|i: int|
                0 <= i < first.len() && #[trigger] first[i] == MutationEventView::Answered(None);
            assert(events[i] == MutationEventView::Answered(None));
        }
        if let MutationStageView::Asking { path, exists } = before.stage {
            if events.last() == MutationEventView::Answered(None) {
                assert(events[events.len() - 1] == MutationEventView::Answered(None));
                let verdict = fs.guard_verdict(path, m.guard, exists);
            }
        }
    }
}

/// A mutation whose guard no state of the target could meet only looks, asks and
/// is refused, with nothing touched, whatever came back.
pub proof fn law_a_refused_guard_touches_nothing(
    m: MutationView,
    fs: LocalFsView,
    events: Seq<MutationEventView>,
)
    requires
        m.stage is Looking,
        fits(m, fs, events),
        forall|path: Seq<u8>, exists: bool| #[trigger]
            fs.guard_verdict(path, m.guard, exists) is Err,
    ensures
        ({
            let at = played(m, fs, events);
            at.fs == fs && !touches(at.action) && (at.stage is Looking || at.stage is Asking
                || at.stage is Over)
        }),
    decreases events.len(),
{
    if events.len() > 0 {
        law_a_refused_guard_touches_nothing(m, fs, events.drop_last());
    }
}

/// The two waterfalls are separate: whatever came back, a write never puts a
/// question to the edit listener, nor an edit to the write listener, and what is
/// asked names the mounted actor and the mutation's own target.
pub proof fn law_each_change_asks_its_own_listener(
    m: MutationView,
    fs: LocalFsView,
    events: Seq<MutationEventView>,
)
    requires
        m.stage is Looking,
        fits(m, fs, events),
    ensures
        match played(m, fs, events).action {
            MutationActionView::AskWrite(event) => m.change is Write && fs.actor == Some(event.actor)
                && event.target == m.target,
            MutationActionView::AskEdit(event) => m.change is Edit && fs.actor == Some(event.actor)
                && event.target == m.target,
            _ => true,
        },
{
    if events.len() > 0 {
        lemma_asked_first(m, fs, events);
    }
}

/// A question is put once, right after the first walk.
proof fn lemma_asked_first(m: MutationView, fs: LocalFsView, events: Seq<MutationEventView>)
    requires
        m.stage is Looking,
        fits(m, fs, events),
        events.len() > 0,
    ensures
        !(played(m, fs, events).stage is Looking),
        played(m, fs, events).stage is Asking ==> events.len() == 1,
    decreases events.len(),
{
    if events.len() > 1 {
        lemma_asked_first(m, fs, events.drop_last());
    }
}

/// A mutation that its listener denies is refused with the listener's reason, and
/// is over with the provider as it was.
pub proof fn law_a_denied_mutation_is_refused(m: MutationView, fs: LocalFsView, reason: Seq<char>)
    requires
        m.stage is Asking,
    ensures
        ({
            let at = m.moved(fs, MutationEventView::Answered(Some(reason)));
            &&& at.fs == fs
            &&& at.stage is Over
            &&& at.action == MutationActionView::Done(
                Err(
                    failure(
                        ErrorCode::SandboxDenied,
                        match m.change {
                            ChangeView::Write(_) => "write refused by policy: "@,
                            ChangeView::Edit { .. } => "edit refused by policy: "@,
                        } + reason,
                    ),
                ),
            )
        }),
{
}

} // verus!
