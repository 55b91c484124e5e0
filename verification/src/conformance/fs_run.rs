//! The version-guard cases of the filesystem suite, as state machines: which call
//! the provider gets next, and what its answers come to. A case that moves a file
//! past a token before it presents the token is only as good as that order.

use vstd::prelude::*;
use vstd::utf8::encode_utf8;

use crate::conformance::fs_suite::{
    applied_edit_findings, bytes_of, code, code_of, contents_findings, fresh_write_findings,
    judge_contents, judge_refusal, refusal_findings, rejected, rejected_cx, skipped_cx,
};
use crate::conformance::report::{failed, skipped, Cx, CxView};
use crate::seam::error::{ErrorCode, SeamError};
use crate::seam::fs::{
    Entry, MutationResult, ReadWindow, Target, TargetKey, VersionToken, WriteGuard,
};
use crate::text::{cat, cat3, owned};

verus! {

/// A call that a case makes next.
pub enum FsCall {
    /// Resolve this path.
    Resolve(String),
    /// Read the target, up to so many bytes.
    Read(Target, usize),
    /// Read through a handle with this key and this display.
    ReadAs { key: TargetKey, display: String },
    /// Write these contents.
    Write { target: Target, contents: Vec<u8>, guard: Option<WriteGuard> },
    /// Replace the one occurrence of `find`.
    Edit { target: Target, find: String, replace: String, guard: Option<WriteGuard> },
    /// List the target.
    List(Target),
    /// Set the mode of this path, on the host.
    Chmod { path: String, mode: u32 },
    /// The case is over.
    Done(Cx),
}

/// What an [`FsCall`] says.
pub enum FsCallView {
    Resolve(Seq<char>),
    Read(Target, usize),
    ReadAs { key: TargetKey, display: Seq<char> },
    Write { target: Target, contents: Seq<u8>, guard: Option<WriteGuard> },
    Edit { target: Target, find: Seq<char>, replace: Seq<char>, guard: Option<WriteGuard> },
    List(Target),
    Chmod { path: Seq<char>, mode: u32 },
    Done(CxView),
}

impl View for FsCall {
    type V = FsCallView;

    open spec fn view(&self) -> FsCallView {
        match *self {
            FsCall::Resolve(path) => FsCallView::Resolve(path@),
            FsCall::Read(target, cap) => FsCallView::Read(target, cap),
            FsCall::ReadAs { key, display } => FsCallView::ReadAs { key, display: display@ },
            FsCall::Write { target, contents, guard } => FsCallView::Write {
                target,
                contents: contents@,
                guard,
            },
            FsCall::Edit { target, find, replace, guard } => FsCallView::Edit {
                target,
                find: find@,
                replace: replace@,
                guard,
            },
            FsCall::List(target) => FsCallView::List(target),
            FsCall::Chmod { path, mode } => FsCallView::Chmod { path: path@, mode },
            FsCall::Done(cx) => FsCallView::Done(cx@),
        }
    }
}

/// The provider's answer to a call; of a mode, the host's.
pub enum FsReply {
    Resolved(Result<Target, SeamError>),
    Read(Result<ReadWindow, SeamError>),
    Mutated(Result<MutationResult, SeamError>),
    Listed(Result<Vec<Entry>, SeamError>),
    Moded(Option<bool>),
}

/// The cases that turn on the order of their calls.
#[derive(Debug, Clone, Copy, PartialEq, Eq, Structural)]
pub enum GuardCase {
    /// A token the file outlived is refused by a write.
    StaleVersion,
    /// A token the file outlived is refused by an edit.
    GuardedEdit,
}

/// Where a guard case stands: the call whose answer it waits for.
pub enum GuardStage {
    /// Resolving the fixture's path.
    Naming,
    /// Writing the fixture.
    Seeding(Target),
    /// Mutating it for the first time; the token of that is kept.
    Marking(Target),
    /// Mutating it again, past the token.
    Moving(Target, VersionToken),
    /// Presenting the token.
    Presenting(Target),
    /// Reading what the refused write left.
    Rereading(Target, Cx),
    /// Writing unguarded, for a current token.
    Renewing(Target, Cx),
    /// Presenting the current token.
    Refreshing(Cx),
    /// Editing unguarded.
    Applying(Target, Cx),
    /// Reading what that edit left.
    Verifying(Target, Cx),
    /// Editing what is not there.
    Missing(Target, Cx),
    /// Editing what is there twice.
    Doubling(Cx),
}

/// What a [`GuardStage`] says.
pub enum GuardStageView {
    Naming,
    Seeding(Target),
    Marking(Target),
    Moving(Target, VersionToken),
    Presenting(Target),
    Rereading(Target, CxView),
    Renewing(Target, CxView),
    Refreshing(CxView),
    Applying(Target, CxView),
    Verifying(Target, CxView),
    Missing(Target, CxView),
    Doubling(CxView),
    Over,
}

impl View for GuardStage {
    type V = GuardStageView;

    open spec fn view(&self) -> GuardStageView {
        match *self {
            GuardStage::Naming => GuardStageView::Naming,
            GuardStage::Seeding(t) => GuardStageView::Seeding(t),
            GuardStage::Marking(t) => GuardStageView::Marking(t),
            GuardStage::Moving(t, token) => GuardStageView::Moving(t, token),
            GuardStage::Presenting(t) => GuardStageView::Presenting(t),
            GuardStage::Rereading(t, cx) => GuardStageView::Rereading(t, cx@),
            GuardStage::Renewing(t, cx) => GuardStageView::Renewing(t, cx@),
            GuardStage::Refreshing(cx) => GuardStageView::Refreshing(cx@),
            GuardStage::Applying(t, cx) => GuardStageView::Applying(t, cx@),
            GuardStage::Verifying(t, cx) => GuardStageView::Verifying(t, cx@),
            GuardStage::Missing(t, cx) => GuardStageView::Missing(t, cx@),
            GuardStage::Doubling(cx) => GuardStageView::Doubling(cx@),
        }
    }
}

impl GuardCase {
    /// The fixture's path.
    pub open spec fn path(self) -> Seq<char> {
        match self {
            GuardCase::StaleVersion => "conf/stale.txt"@,
            GuardCase::GuardedEdit => "conf/edit_stale.txt"@,
        }
    }

    /// The fixture's first contents.
    pub open spec fn seed(self) -> Seq<char> {
        match self {
            GuardCase::StaleVersion => "v1 seed"@,
            GuardCase::GuardedEdit => "alpha beta"@,
        }
    }

    /// The contents that move the file past the token.
    pub open spec fn moved_to(self) -> Seq<char> {
        match self {
            GuardCase::StaleVersion => "v1b"@,
            GuardCase::GuardedEdit => "alpha beta"@,
        }
    }

    fn path_str(self) -> (r: &'static str)
        ensures
            r@ == self.path(),
    {
        match self {
            GuardCase::StaleVersion => "conf/stale.txt",
            GuardCase::GuardedEdit => "conf/edit_stale.txt",
        }
    }

    fn seed_str(self) -> (r: &'static str)
        ensures
            r@ == self.seed(),
    {
        match self {
            GuardCase::StaleVersion => "v1 seed",
            GuardCase::GuardedEdit => "alpha beta",
        }
    }

    fn moved_str(self) -> (r: &'static str)
        ensures
            r@ == self.moved_to(),
    {
        match self {
            GuardCase::StaleVersion => "v1b",
            GuardCase::GuardedEdit => "alpha beta",
        }
    }
}

/// An unguarded write.
pub open spec fn write_call(target: Target, text: Seq<char>) -> FsCallView {
    FsCallView::Write { target, contents: encode_utf8(text), guard: None }
}

/// A write guarded by a token.
pub open spec fn guarded_write(target: Target, text: Seq<char>, token: VersionToken) -> FsCallView {
    FsCallView::Write {
        target,
        contents: encode_utf8(text),
        guard: Some(WriteGuard::ReplaceAtVersion(token)),
    }
}

/// An unguarded edit.
pub open spec fn edit_call(target: Target, find: Seq<char>, replace: Seq<char>) -> FsCallView {
    FsCallView::Edit { target, find, replace, guard: None }
}

/// The end of a case.
pub open spec fn done(cx: CxView) -> (GuardStageView, FsCallView) {
    (GuardStageView::Over, FsCallView::Done(cx))
}

/// The start of a case.
pub open spec fn begun(case: GuardCase) -> (GuardStageView, FsCallView) {
    (GuardStageView::Naming, FsCallView::Resolve(case.path()))
}

/// What is found of a stale token that a write presented.
pub open spec fn stale_write_refusal(got: Option<ErrorCode>) -> Seq<Seq<char>> {
    refusal_findings(
        got,
        ErrorCode::StaleVersion,
        "stale ReplaceAtVersion failed with `"@,
        "`, expected `stale-version`"@,
        "stale ReplaceAtVersion write succeeded; guard was ignored"@,
    )
}

/// What is found of a stale token that an edit presented.
pub open spec fn stale_edit_refusal(got: Option<ErrorCode>) -> Seq<Seq<char>> {
    refusal_findings(
        got,
        ErrorCode::StaleVersion,
        "stale guarded edit failed with `"@,
        "`, expected `stale-version`"@,
        "stale guarded edit succeeded; version check skipped"@,
    )
}

/// What is found of an edit that matches nothing.
pub open spec fn no_match_refusal(got: Option<ErrorCode>) -> Seq<Seq<char>> {
    refusal_findings(
        got,
        ErrorCode::EditNotFound,
        "edit with no match failed with `"@,
        "`, expected `edit-not-found`"@,
        "edit with zero matches succeeded"@,
    )
}

/// What is found of an edit that matches more than once.
pub open spec fn two_match_refusal(got: Option<ErrorCode>) -> Seq<Seq<char>> {
    refusal_findings(
        got,
        ErrorCode::AmbiguousEdit,
        "edit with multiple matches failed with `"@,
        "`, expected `ambiguous-edit`"@,
        "edit with multiple matches succeeded; the match must be unique"@,
    )
}

/// What is found of reading the file that the refused write must have spared.
pub open spec fn spared_findings(after: Result<ReadWindow, SeamError>) -> Seq<Seq<char>> {
    contents_findings(
        after,
        encode_utf8("v1b"@),
        "refused guarded write mutated the file to "@,
        "read after refused write failed: "@,
    )
}

/// Whether a reply answers what a stage waits for.
pub open spec fn expects(stage: GuardStageView, reply: FsReply) -> bool {
    match stage {
        GuardStageView::Naming => reply is Resolved,
        GuardStageView::Rereading(..) => reply is Read,
        GuardStageView::Verifying(..) => reply is Read,
        GuardStageView::Over => false,
        _ => reply is Mutated,
    }
}

/// Whether a case that stands there asks for a call of this form.
pub open spec fn asks(stage: GuardStageView, call: FsCallView) -> bool {
    match stage {
        GuardStageView::Naming => call is Resolve,
        GuardStageView::Rereading(..) => call is Read,
        GuardStageView::Verifying(..) => call is Read,
        GuardStageView::Over => call is Done,
        _ => call is Write || call is Edit,
    }
}

/// A case asks for what it then waits for.
pub proof fn lemma_asks(case: GuardCase, stage: GuardStageView, reply: FsReply)
    requires
        expects(stage, reply),
    ensures
        asks(moved(case, stage, reply).0, moved(case, stage, reply).1),
{
}

/// The call that follows an answer, and where the case then stands.
pub open spec fn moved(case: GuardCase, stage: GuardStageView, reply: FsReply) -> (
    GuardStageView,
    FsCallView,
) {
    match (stage, reply) {
        (GuardStageView::Naming, FsReply::Resolved(named)) => match named {
            Err(e) => done(rejected(case.path(), e@)),
            Ok(t) => (GuardStageView::Seeding(t), write_call(t, case.seed())),
        },
        (GuardStageView::Seeding(t), FsReply::Mutated(seeded)) => match seeded {
            Err(e) => done(rejected(case.path(), e@)),
            Ok(_) => (
                GuardStageView::Marking(t),
                match case {
                    GuardCase::StaleVersion => edit_call(t, "seed"@, "one"@),
                    GuardCase::GuardedEdit => write_call(t, "alpha beta"@),
                },
            ),
        },
        (GuardStageView::Marking(t), FsReply::Mutated(first)) => match first {
            Err(e) => done(
                skipped(
                    match case {
                        GuardCase::StaleVersion => "fixture seed edit rejected: "@,
                        GuardCase::GuardedEdit => "fixture rewrite rejected: "@,
                    } + e@.shown(),
                ),
            ),
            Ok(m) => (GuardStageView::Moving(t, m.version), write_call(t, case.moved_to())),
        },
        (GuardStageView::Moving(t, token), FsReply::Mutated(again)) => match again {
            Err(e) => done(skipped("fixture rewrite rejected: "@ + e@.shown())),
            Ok(_) => (
                GuardStageView::Presenting(t),
                match case {
                    GuardCase::StaleVersion => guarded_write(t, "v2"@, token),
                    GuardCase::GuardedEdit => FsCallView::Edit {
                        target: t,
                        find: "beta"@,
                        replace: "gamma"@,
                        guard: Some(WriteGuard::ReplaceAtVersion(token)),
                    },
                },
            ),
        },
        (GuardStageView::Presenting(t), FsReply::Mutated(stale)) => match case {
            GuardCase::StaleVersion => (
                GuardStageView::Rereading(t, failed(stale_write_refusal(code_of(stale)))),
                FsCallView::Read(t, usize::MAX),
            ),
            GuardCase::GuardedEdit => (
                GuardStageView::Applying(t, failed(stale_edit_refusal(code_of(stale)))),
                edit_call(t, "beta"@, "gamma"@),
            ),
        },
        (GuardStageView::Rereading(t, cx), FsReply::Read(after)) => (
            GuardStageView::Renewing(t, cx.and_failed(spared_findings(after))),
            write_call(t, "v1b"@),
        ),
        (GuardStageView::Renewing(t, cx), FsReply::Mutated(current)) => match current {
            Err(e) => done(
                cx.and_failed(
                    seq!["unconditional write after refused guard failed: "@ + e@.shown()],
                ),
            ),
            Ok(c) => (GuardStageView::Refreshing(cx), guarded_write(t, "v2"@, c.version)),
        },
        (GuardStageView::Refreshing(cx), FsReply::Mutated(fresh)) => done(
            cx.and_failed(fresh_write_findings(fresh)),
        ),
        (GuardStageView::Applying(t, cx), FsReply::Mutated(applied)) => match applied {
            Err(e) => (
                GuardStageView::Missing(
                    t,
                    cx.and_failed(seq!["unguarded edit failed: "@ + e@.shown()]),
                ),
                edit_call(t, "nonexistent"@, "x"@),
            ),
            Ok(_) => (GuardStageView::Verifying(t, cx), FsCallView::Read(t, usize::MAX)),
        },
        (GuardStageView::Verifying(t, cx), FsReply::Read(read)) => (
            GuardStageView::Missing(t, cx.and_failed(applied_edit_findings(read))),
            edit_call(t, "nonexistent"@, "x"@),
        ),
        (GuardStageView::Missing(t, cx), FsReply::Mutated(none)) => (
            GuardStageView::Doubling(cx.and_failed(no_match_refusal(code_of(none)))),
            edit_call(t, "a"@, "b"@),
        ),
        (GuardStageView::Doubling(cx), FsReply::Mutated(dup)) => done(
            cx.and_failed(two_match_refusal(code_of(dup))),
        ),
        _ => arbitrary(),
    }
}

/// How many calls are left at most.
pub open spec fn calls_left(stage: GuardStageView) -> nat {
    match stage {
        GuardStageView::Naming => 9,
        GuardStageView::Seeding(_) => 8,
        GuardStageView::Marking(_) => 7,
        GuardStageView::Moving(..) => 6,
        GuardStageView::Presenting(_) => 5,
        GuardStageView::Rereading(..) => 3,
        GuardStageView::Renewing(..) => 2,
        GuardStageView::Refreshing(_) => 1,
        GuardStageView::Applying(..) => 4,
        GuardStageView::Verifying(..) => 3,
        GuardStageView::Missing(..) => 2,
        GuardStageView::Doubling(_) => 1,
        GuardStageView::Over => 0,
    }
}

/// A guard case in progress.
pub struct GuardRun {
    case: GuardCase,
    stage: GuardStage,
}

impl GuardRun {
    /// The case that runs.
    pub closed spec fn which(self) -> GuardCase {
        self.case
    }

    /// Where it stands.
    pub closed spec fn stage(self) -> GuardStageView {
        self.stage@
    }

    /// Begin a case: the fixture's path is resolved first.
    pub fn begin(case: GuardCase) -> (r: (GuardRun, FsCall))
        ensures
            r.0.which() == case,
            (r.0.stage(), r.1@) == begun(case),
            !(r.0.stage() is Over),
    {
        (
            GuardRun { case, stage: GuardStage::Naming },
            FsCall::Resolve(owned(case.path_str())),
        )
    }

    /// Take in the answer to the call that was asked for.
    pub fn resume(self, reply: FsReply) -> (r: (Option<GuardRun>, FsCall))
        requires
            expects(self.stage(), reply),
        ensures
            r.1@ == moved(self.which(), self.stage(), reply).1,
            r.0 is None <==> r.1@ is Done,
            r.0 matches Some(run) ==> run.which() == self.which() && run.stage() == moved(
                self.which(),
                self.stage(),
                reply,
            ).0 && !(run.stage() is Over),
            calls_left(moved(self.which(), self.stage(), reply).0) < calls_left(self.stage()),
    {
        let case = self.case;
        match (self.stage, reply) {
            (GuardStage::Naming, FsReply::Resolved(named)) => match named {
                Err(e) => over(rejected_cx(case.path_str(), &e)),
                Ok(t) => {
                    let call = put(&t, case.seed_str(), None);
                    go(case, GuardStage::Seeding(t), call)
                },
            },
            (GuardStage::Seeding(t), FsReply::Mutated(seeded)) => match seeded {
                Err(e) => over(rejected_cx(case.path_str(), &e)),
                Ok(_) => {
                    let call = match case {
                        GuardCase::StaleVersion => change(&t, "seed", "one", None),
                        GuardCase::GuardedEdit => put(&t, "alpha beta", None),
                    };
                    go(case, GuardStage::Marking(t), call)
                },
            },
            (GuardStage::Marking(t), FsReply::Mutated(first)) => match first {
                Err(e) => match case {
                    GuardCase::StaleVersion => over(skipped_cx("fixture seed edit rejected: ", &e)),
                    GuardCase::GuardedEdit => over(skipped_cx("fixture rewrite rejected: ", &e)),
                },
                Ok(m) => {
                    let call = put(&t, case.moved_str(), None);
                    go(case, GuardStage::Moving(t, m.version), call)
                },
            },
            (GuardStage::Moving(t, token), FsReply::Mutated(again)) => match again {
                Err(e) => over(skipped_cx("fixture rewrite rejected: ", &e)),
                Ok(_) => {
                    let guard = Some(WriteGuard::ReplaceAtVersion(token));
                    let call = match case {
                        GuardCase::StaleVersion => put(&t, "v2", guard),
                        GuardCase::GuardedEdit => change(&t, "beta", "gamma", guard),
                    };
                    go(case, GuardStage::Presenting(t), call)
                },
            },
            (GuardStage::Presenting(t), FsReply::Mutated(stale)) => {
                let mut cx = Cx::new();
                match case {
                    GuardCase::StaleVersion => {
                        judge_refusal(
                            &mut cx,
                            code(&stale),
                            ErrorCode::StaleVersion,
                            "stale ReplaceAtVersion failed with `",
                            "`, expected `stale-version`",
                            "stale ReplaceAtVersion write succeeded; guard was ignored",
                        );
                        assert(cx@ =~= failed(stale_write_refusal(code_of(stale))));
                        let call = FsCall::Read(t.copy(), usize::MAX);
                        go(case, GuardStage::Rereading(t, cx), call)
                    },
                    GuardCase::GuardedEdit => {
                        judge_refusal(
                            &mut cx,
                            code(&stale),
                            ErrorCode::StaleVersion,
                            "stale guarded edit failed with `",
                            "`, expected `stale-version`",
                            "stale guarded edit succeeded; version check skipped",
                        );
                        assert(cx@ =~= failed(stale_edit_refusal(code_of(stale))));
                        let call = change(&t, "beta", "gamma", None);
                        go(case, GuardStage::Applying(t, cx), call)
                    },
                }
            },
            (GuardStage::Rereading(t, found), FsReply::Read(after)) => {
                let mut cx = found;
                judge_contents(
                    &mut cx,
                    &after,
                    "v1b".as_bytes(),
                    "refused guarded write mutated the file to ",
                    "read after refused write failed: ",
                );
                let call = put(&t, "v1b", None);
                go(case, GuardStage::Renewing(t, cx), call)
            },
            (GuardStage::Renewing(t, found), FsReply::Mutated(current)) => match current {
                Err(e) => {
                    let mut cx = found;
                    cx.fail(
                        cat("unconditional write after refused guard failed: ", e.display().as_str()),
                    );
                    over(cx)
                },
                Ok(c) => {
                    let call = put(&t, "v2", Some(WriteGuard::ReplaceAtVersion(c.version)));
                    go(case, GuardStage::Refreshing(found), call)
                },
            },
            (GuardStage::Refreshing(found), FsReply::Mutated(fresh)) => {
                let mut cx = found;
                if let Err(e) = &fresh {
                    cx.fail(
                        cat3(
                            "write guarded by the current token failed with `",
                            e.code.as_str(),
                            "`; a fresh token must satisfy ReplaceAtVersion",
                        ),
                    );
                }
                assert(cx@ =~= found@.and_failed(fresh_write_findings(fresh)));
                over(cx)
            },
            (GuardStage::Applying(t, found), FsReply::Mutated(applied)) => match applied {
                Err(e) => {
                    let mut cx = found;
                    cx.fail(cat("unguarded edit failed: ", e.display().as_str()));
                    let call = change(&t, "nonexistent", "x", None);
                    go(case, GuardStage::Missing(t, cx), call)
                },
                Ok(_) => {
                    let call = FsCall::Read(t.copy(), usize::MAX);
                    go(case, GuardStage::Verifying(t, found), call)
                },
            },
            (GuardStage::Verifying(t, found), FsReply::Read(read)) => {
                let mut cx = found;
                judge_contents(
                    &mut cx,
                    &read,
                    "alpha gamma".as_bytes(),
                    "edit replaced wrong bytes: contents are ",
                    "read after edit failed: ",
                );
                let call = change(&t, "nonexistent", "x", None);
                go(case, GuardStage::Missing(t, cx), call)
            },
            (GuardStage::Missing(t, found), FsReply::Mutated(none)) => {
                let mut cx = found;
                judge_refusal(
                    &mut cx,
                    code(&none),
                    ErrorCode::EditNotFound,
                    "edit with no match failed with `",
                    "`, expected `edit-not-found`",
                    "edit with zero matches succeeded",
                );
                let call = change(&t, "a", "b", None);
                go(case, GuardStage::Doubling(cx), call)
            },
            (GuardStage::Doubling(found), FsReply::Mutated(dup)) => {
                let mut cx = found;
                judge_refusal(
                    &mut cx,
                    code(&dup),
                    ErrorCode::AmbiguousEdit,
                    "edit with multiple matches failed with `",
                    "`, expected `ambiguous-edit`",
                    "edit with multiple matches succeeded; the match must be unique",
                );
                over(cx)
            },
            _ => {
                assert(false);
                over(Cx::new())
            },
        }
    }
}

fn over(cx: Cx) -> (r: (Option<GuardRun>, FsCall))
    ensures
        r.0 is None,
        r.1@ == FsCallView::Done(cx@),
{
    (None, FsCall::Done(cx))
}

fn go(case: GuardCase, stage: GuardStage, call: FsCall) -> (r: (Option<GuardRun>, FsCall))
    ensures
        r.0 matches Some(run) && run.which() == case && run.stage() == stage@,
        r.1 == call,
{
    (Some(GuardRun { case, stage }), call)
}

fn put(t: &Target, text: &str, guard: Option<WriteGuard>) -> (r: FsCall)
    ensures
        r@ == (FsCallView::Write { target: *t, contents: encode_utf8(text@), guard }),
{
    FsCall::Write { target: t.copy(), contents: bytes_of(text), guard }
}

fn change(t: &Target, find: &str, replace: &str, guard: Option<WriteGuard>) -> (r: FsCall)
    ensures
        r@ == (FsCallView::Edit { target: *t, find: find@, replace: replace@, guard }),
{
    FsCall::Edit { target: t.copy(), find: owned(find), replace: owned(replace), guard }
}

// ---------------------------------------------------------------------------
// Laws
// ---------------------------------------------------------------------------

/// The calls a case has made, and the one it asks for, once `replies` came back.
pub open spec fn calls(case: GuardCase, replies: Seq<FsReply>) -> Seq<FsCallView>
    decreases replies.len(),
{
    if replies.len() == 0 {
        seq![begun(case).1]
    } else {
        calls(case, replies.drop_last()).push(reached(case, replies).1)
    }
}

/// Where a case stands, and what it asks for, once `replies` came back.
pub open spec fn reached(case: GuardCase, replies: Seq<FsReply>) -> (GuardStageView, FsCallView)
    decreases replies.len(),
{
    if replies.len() == 0 {
        begun(case)
    } else {
        moved(case, reached(case, replies.drop_last()).0, replies.last())
    }
}

/// Once the fixture is written, the stale-version case takes a token, moves the file
/// past it, presents the token, reads, takes the current token and presents that:
/// in this order, whatever the refusals and the read came to.
pub proof fn law_the_token_is_stale_before_it_is_presented(
    t: Target,
    seeded: MutationResult,
    first: MutationResult,
    again: MutationResult,
    stale: Result<MutationResult, SeamError>,
    after: Result<ReadWindow, SeamError>,
    current: MutationResult,
)
    ensures
        calls(
            GuardCase::StaleVersion,
            seq![
                FsReply::Resolved(Ok(t)),
                FsReply::Mutated(Ok(seeded)),
                FsReply::Mutated(Ok(first)),
                FsReply::Mutated(Ok(again)),
                FsReply::Mutated(stale),
                FsReply::Read(after),
                FsReply::Mutated(Ok(current)),
            ],
        ) == seq![
            FsCallView::Resolve("conf/stale.txt"@),
            write_call(t, "v1 seed"@),
            edit_call(t, "seed"@, "one"@),
            write_call(t, "v1b"@),
            guarded_write(t, "v2"@, first.version),
            FsCallView::Read(t, usize::MAX),
            write_call(t, "v1b"@),
            guarded_write(t, "v2"@, current.version),
        ],
{
    let case = GuardCase::StaleVersion;
    let r1 = seq![FsReply::Resolved(Ok(t))];
    let r2 = r1.push(FsReply::Mutated(Ok(seeded)));
    let r3 = r2.push(FsReply::Mutated(Ok(first)));
    let r4 = r3.push(FsReply::Mutated(Ok(again)));
    let r5 = r4.push(FsReply::Mutated(stale));
    let r6 = r5.push(FsReply::Read(after));
    let r7 = r6.push(FsReply::Mutated(Ok(current)));
    assert(r1 =~= Seq::<FsReply>::empty().push(FsReply::Resolved(Ok(t))));
    lemma_called(case, Seq::empty(), FsReply::Resolved(Ok(t)));
    lemma_called(case, r1, FsReply::Mutated(Ok(seeded)));
    lemma_called(case, r2, FsReply::Mutated(Ok(first)));
    lemma_called(case, r3, FsReply::Mutated(Ok(again)));
    lemma_called(case, r4, FsReply::Mutated(stale));
    lemma_called(case, r5, FsReply::Read(after));
    lemma_called(case, r6, FsReply::Mutated(Ok(current)));
    assert(r7 =~= seq![
        FsReply::Resolved(Ok(t)),
        FsReply::Mutated(Ok(seeded)),
        FsReply::Mutated(Ok(first)),
        FsReply::Mutated(Ok(again)),
        FsReply::Mutated(stale),
        FsReply::Read(after),
        FsReply::Mutated(Ok(current)),
    ]);
}

/// Once the fixture is written, the guarded-edit case takes a token, rewrites the
/// file past it, presents the token, edits unguarded, reads, and makes the two
/// edits that must not apply: in this order.
pub proof fn law_the_file_is_rewritten_before_a_guarded_edit(
    t: Target,
    seeded: MutationResult,
    first: MutationResult,
    again: MutationResult,
    stale: Result<MutationResult, SeamError>,
    applied: MutationResult,
    read: Result<ReadWindow, SeamError>,
    none: Result<MutationResult, SeamError>,
)
    ensures
        calls(
            GuardCase::GuardedEdit,
            seq![
                FsReply::Resolved(Ok(t)),
                FsReply::Mutated(Ok(seeded)),
                FsReply::Mutated(Ok(first)),
                FsReply::Mutated(Ok(again)),
                FsReply::Mutated(stale),
                FsReply::Mutated(Ok(applied)),
                FsReply::Read(read),
                FsReply::Mutated(none),
            ],
        ) == seq![
            FsCallView::Resolve("conf/edit_stale.txt"@),
            write_call(t, "alpha beta"@),
            write_call(t, "alpha beta"@),
            write_call(t, "alpha beta"@),
            FsCallView::Edit {
                target: t,
                find: "beta"@,
                replace: "gamma"@,
                guard: Some(WriteGuard::ReplaceAtVersion(first.version)),
            },
            edit_call(t, "beta"@, "gamma"@),
            FsCallView::Read(t, usize::MAX),
            edit_call(t, "nonexistent"@, "x"@),
            edit_call(t, "a"@, "b"@),
        ],
{
    let case = GuardCase::GuardedEdit;
    let r1 = seq![FsReply::Resolved(Ok(t))];
    let r2 = r1.push(FsReply::Mutated(Ok(seeded)));
    let r3 = r2.push(FsReply::Mutated(Ok(first)));
    let r4 = r3.push(FsReply::Mutated(Ok(again)));
    let r5 = r4.push(FsReply::Mutated(stale));
    let r6 = r5.push(FsReply::Mutated(Ok(applied)));
    let r7 = r6.push(FsReply::Read(read));
    let r8 = r7.push(FsReply::Mutated(none));
    assert(r1 =~= Seq::<FsReply>::empty().push(FsReply::Resolved(Ok(t))));
    lemma_called(case, Seq::empty(), FsReply::Resolved(Ok(t)));
    lemma_called(case, r1, FsReply::Mutated(Ok(seeded)));
    lemma_called(case, r2, FsReply::Mutated(Ok(first)));
    lemma_called(case, r3, FsReply::Mutated(Ok(again)));
    lemma_called(case, r4, FsReply::Mutated(stale));
    lemma_called(case, r5, FsReply::Mutated(Ok(applied)));
    lemma_called(case, r6, FsReply::Read(read));
    lemma_called(case, r7, FsReply::Mutated(none));
    assert(r8 =~= seq![
        FsReply::Resolved(Ok(t)),
        FsReply::Mutated(Ok(seeded)),
        FsReply::Mutated(Ok(first)),
        FsReply::Mutated(Ok(again)),
        FsReply::Mutated(stale),
        FsReply::Mutated(Ok(applied)),
        FsReply::Read(read),
        FsReply::Mutated(none),
    ]);
}

/// One more answer leads to one more call.
proof fn lemma_called(case: GuardCase, replies: Seq<FsReply>, reply: FsReply)
    ensures
        reached(case, replies.push(reply)) == moved(case, reached(case, replies).0, reply),
        calls(case, replies.push(reply)) == calls(case, replies).push(
            moved(case, reached(case, replies).0, reply).1,
        ),
{
    assert(replies.push(reply).drop_last() =~= replies);
}

/// A case that has not come to its end waits for the answer to the call it asked
/// for, and has fewer calls left after it: nine are made at most.
pub proof fn law_a_guard_case_ends(case: GuardCase, stage: GuardStageView, reply: FsReply)
    requires
        expects(stage, reply),
    ensures
        calls_left(moved(case, stage, reply).0) < calls_left(stage) <= 9,
        moved(case, stage, reply).0 is Over <==> moved(case, stage, reply).1 is Done,
{
}

} // verus!
