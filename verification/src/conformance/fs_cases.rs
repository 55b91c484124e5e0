//! The filesystem suite's cases, step by step: which call the provider gets after
//! the answers it gave so far, and what those come to at the end. A probe means
//! something only after its fixture is there, so the order is part of a case.

use vstd::prelude::*;
use vstd::utf8::encode_utf8;

use crate::conformance::fs_run::{FsCall, FsCallView, FsReply};
use crate::conformance::fs_suite::{
    binary_findings, binary_fixture, bytes_of, capped_findings, code, code_of, create_findings,
    debris_findings, debris_in, debris_names, debris_view, denied_findings, forged_key_findings,
    foreign_guard, hello_findings, judge_binary, judge_capped, judge_contents, judge_debris,
    judge_denied, judge_forged_key, judge_hello, judge_overwrite, judge_refusal, judge_spellings,
    judge_spoofed, judge_uncapped, judge_unobserved, long_fixture, long_lines,
    missing_read_findings, no_round_trip, overwrite_findings, reject, rejected, rejected_cx,
    short_fixture, short_lines, skipped_cx, spelled, spelling_failures, spelling_splits,
    spoofed_findings, uncapped_findings, unobserved_findings, unresolved_findings, SPELLINGS,
};
use crate::conformance::report::{clean, failed, skipped, Cx, CxView};
use crate::seam::error::{ErrorCode, SeamError, SeamErrorView};
use crate::seam::fs::{Target, TargetKey, VersionToken, WriteGuard};
use crate::text::{cat, cat3, owned};

verus! {

/// The cases that take their calls one after the other.
#[derive(Debug, Clone, Copy, PartialEq, Eq, Structural)]
pub enum FsCase {
    WriteThenRead,
    UnobservedGuardedWrite,
    CreateIfAbsent,
    AtomicWriteNoDebris,
    AtomicEditNoDebris,
    OverwriteInPlace,
    SameFileSameKey,
    ForgedTargetRefused,
    WindowedReadPastCap,
    WindowedReadNoCap,
    ReadMissingIsNotFound,
    ListFileIsNotADirectory,
    ReadBinaryIsNotText,
    ReadDirectoryIsNotARegularFile,
    PermissionDeniedVsSandboxDenied,
}

// ---------------------------------------------------------------------------
// Parts of a case
// ---------------------------------------------------------------------------

/// What an answer of the wrong kind leads to: the case ends, with nothing found.
pub open spec fn astray() -> FsCallView {
    FsCallView::Done(clean())
}

/// How far a fixture write has come.
pub enum FixtureView {
    /// This call is next.
    Ask(FsCallView),
    /// The provider refused, with its answer number `used - 1`.
    Refused { e: SeamErrorView, used: int },
    /// The fixture is there.
    Ready(Target),
}

/// A fixture write whose answers begin at `at`: the path is resolved, then the
/// contents are written without a guard.
pub open spec fn fixture(
    path: Seq<char>,
    contents: Seq<u8>,
    replies: Seq<FsReply>,
    at: int,
) -> FixtureView {
    if replies.len() <= at {
        FixtureView::Ask(FsCallView::Resolve(path))
    } else {
        match replies[at] {
            FsReply::Resolved(Err(e)) => FixtureView::Refused { e: e@, used: at + 1 },
            FsReply::Resolved(Ok(target)) => if replies.len() <= at + 1 {
                FixtureView::Ask(FsCallView::Write { target, contents, guard: None })
            } else {
                match replies[at + 1] {
                    FsReply::Mutated(Err(e)) => FixtureView::Refused { e: e@, used: at + 2 },
                    FsReply::Mutated(Ok(_)) => FixtureView::Ready(target),
                    _ => FixtureView::Ask(astray()),
                }
            },
            _ => FixtureView::Ask(astray()),
        }
    }
}

/// How far a fixture write has come.
enum Fixture<'a> {
    Ask(FsCall),
    Refused { e: &'a SeamError, used: usize },
    Ready(&'a Target),
}

impl<'a> View for Fixture<'a> {
    type V = FixtureView;

    closed spec fn view(&self) -> FixtureView {
        match *self {
            Fixture::Ask(call) => FixtureView::Ask(call@),
            Fixture::Refused { e, used } => FixtureView::Refused { e: e@, used: used as int },
            Fixture::Ready(t) => FixtureView::Ready(*t),
        }
    }
}

fn lost() -> (r: FsCall)
    ensures
        r@ == astray(),
{
    FsCall::Done(Cx::new())
}

fn seed<'a>(path: &str, contents: &[u8], replies: &'a Vec<FsReply>, at: usize) -> (r: Fixture<'a>)
    requires
        at <= 8,
    ensures
        r@ == fixture(path@, contents@, replies@, at as int),
        r matches Fixture::Ask(call) ==> fixture(path@, contents@, replies@, at as int)
            == FixtureView::Ask(call@),
        r matches Fixture::Refused { e, used } ==> fixture(path@, contents@, replies@, at as int)
            == (FixtureView::Refused { e: e@, used: used as int }) && used <= at + 2,
        r matches Fixture::Ready(t) ==> fixture(path@, contents@, replies@, at as int)
            == FixtureView::Ready(*t),
{
    if replies.len() <= at {
        return Fixture::Ask(FsCall::Resolve(owned(path)));
    }
    match &replies[at] {
        FsReply::Resolved(Err(e)) => Fixture::Refused { e, used: at + 1 },
        FsReply::Resolved(Ok(target)) => {
            if replies.len() <= at + 1 {
                let call = FsCall::Write {
                    target: target.copy(),
                    contents: copied(contents),
                    guard: None,
                };
                return Fixture::Ask(call);
            }
            match &replies[at + 1] {
                FsReply::Mutated(Err(e)) => Fixture::Refused { e, used: at + 2 },
                FsReply::Mutated(Ok(_)) => Fixture::Ready(target),
                _ => Fixture::Ask(lost()),
            }
        },
        _ => Fixture::Ask(lost()),
    }
}

fn copied(bytes: &[u8]) -> (r: Vec<u8>)
    ensures
        r@ == bytes@,
{
    let mut out: Vec<u8> = Vec::new();
    crate::local_fs::bytes::push_range(&mut out, bytes, 0, bytes.len());
    assert(out@ =~= bytes@);
    out
}

/// How far a look beside a file has come.
pub enum BesideView {
    /// This call is next.
    Ask(FsCallView),
    /// The leftovers the provider shows; `None` when it will not list the directory.
    Seen(Option<Seq<Seq<char>>>),
}

/// A look into the fixture directory whose answers begin at `at`: it is resolved,
/// then listed.
pub open spec fn beside(replies: Seq<FsReply>, at: int) -> BesideView {
    if replies.len() <= at {
        BesideView::Ask(FsCallView::Resolve("conf"@))
    } else {
        match replies[at] {
            FsReply::Resolved(Err(_)) => BesideView::Seen(None),
            FsReply::Resolved(Ok(t)) => if replies.len() <= at + 1 {
                BesideView::Ask(FsCallView::List(t))
            } else {
                match replies[at + 1] {
                    FsReply::Listed(Err(_)) => BesideView::Seen(None),
                    FsReply::Listed(Ok(entries)) => BesideView::Seen(
                        Some(debris_names(entries@)),
                    ),
                    _ => BesideView::Ask(astray()),
                }
            },
            _ => BesideView::Ask(astray()),
        }
    }
}

/// How far a look beside a file has come.
enum Beside {
    Ask(FsCall),
    Seen(Option<Vec<String>>),
}

fn look(replies: &Vec<FsReply>, at: usize) -> (r: Beside)
    requires
        at <= 8,
    ensures
        r matches Beside::Ask(call) ==> beside(replies@, at as int) == BesideView::Ask(call@),
        r matches Beside::Seen(debris) ==> beside(replies@, at as int) == BesideView::Seen(
            debris_view(debris),
        ),
{
    if replies.len() <= at {
        return Beside::Ask(FsCall::Resolve(owned("conf")));
    }
    match &replies[at] {
        FsReply::Resolved(Err(_)) => Beside::Seen(None),
        FsReply::Resolved(Ok(t)) => {
            if replies.len() <= at + 1 {
                return Beside::Ask(FsCall::List(t.copy()));
            }
            match &replies[at + 1] {
                FsReply::Listed(Err(_)) => Beside::Seen(None),
                FsReply::Listed(Ok(entries)) => Beside::Seen(Some(debris_in(entries))),
                _ => Beside::Ask(lost()),
            }
        },
        _ => Beside::Ask(lost()),
    }
}

// ---------------------------------------------------------------------------
// The cases
// ---------------------------------------------------------------------------

/// Write `hello`, read it back.
pub open spec fn write_then_read_next(replies: Seq<FsReply>) -> FsCallView {
    match fixture("conf/write_then_read.txt"@, encode_utf8("hello"@), replies, 0) {
        FixtureView::Ask(call) => call,
        FixtureView::Refused { e, .. } => FsCallView::Done(
            rejected("conf/write_then_read.txt"@, e),
        ),
        FixtureView::Ready(t) => if replies.len() == 2 {
            FsCallView::Read(t, usize::MAX)
        } else {
            match replies[2] {
                FsReply::Read(got) => FsCallView::Done(failed(hello_findings(got))),
                _ => astray(),
            }
        },
    }
}

fn write_then_read_step(replies: &Vec<FsReply>) -> (r: FsCall)
    ensures
        r@ == write_then_read_next(replies@),
{
    match seed("conf/write_then_read.txt", "hello".as_bytes(), replies, 0) {
        Fixture::Ask(call) => call,
        Fixture::Refused { e, .. } => FsCall::Done(rejected_cx("conf/write_then_read.txt", e)),
        Fixture::Ready(t) => {
            if replies.len() == 2 {
                return FsCall::Read(t.copy(), usize::MAX);
            }
            match &replies[2] {
                FsReply::Read(got) => FsCall::Done(judge_hello(got)),
                _ => lost(),
            }
        },
    }
}

/// Present a token outside any issuance sequence.
pub open spec fn unobserved_guarded_write_next(replies: Seq<FsReply>) -> FsCallView {
    match fixture("conf/unobserved.txt"@, encode_utf8("seed"@), replies, 0) {
        FixtureView::Ask(call) => call,
        FixtureView::Refused { e, .. } => FsCallView::Done(rejected("conf/unobserved.txt"@, e)),
        FixtureView::Ready(t) => if replies.len() == 2 {
            FsCallView::Write {
                target: t,
                contents: encode_utf8("payload"@),
                guard: foreign_guard(),
            }
        } else {
            match replies[2] {
                FsReply::Mutated(got) => FsCallView::Done(failed(unobserved_findings(got))),
                _ => astray(),
            }
        },
    }
}

fn unobserved_guarded_write_step(replies: &Vec<FsReply>) -> (r: FsCall)
    ensures
        r@ == unobserved_guarded_write_next(replies@),
{
    match seed("conf/unobserved.txt", "seed".as_bytes(), replies, 0) {
        Fixture::Ask(call) => call,
        Fixture::Refused { e, .. } => FsCall::Done(rejected_cx("conf/unobserved.txt", e)),
        Fixture::Ready(t) => {
            if replies.len() == 2 {
                return FsCall::Write {
                    target: t.copy(),
                    contents: bytes_of("payload"),
                    guard: Some(WriteGuard::ReplaceAtVersion(VersionToken(u64::MAX))),
                };
            }
            match &replies[2] {
                FsReply::Mutated(got) => FsCall::Done(judge_unobserved(got)),
                _ => lost(),
            }
        },
    }
}

/// A write that creates the file or is refused.
pub open spec fn create_call(target: Target, text: Seq<char>) -> FsCallView {
    FsCallView::Write {
        target,
        contents: encode_utf8(text),
        guard: Some(WriteGuard::CreateIfAbsent),
    }
}

/// Create a file, ask to create it again, read it.
pub open spec fn create_if_absent_next(replies: Seq<FsReply>) -> FsCallView {
    if replies.len() == 0 {
        FsCallView::Resolve("conf/create_if_absent.txt"@)
    } else {
        match replies[0] {
            FsReply::Resolved(Err(e)) => FsCallView::Done(
                skipped("resolve rejected: "@ + e@.shown()),
            ),
            FsReply::Resolved(Ok(t)) => if replies.len() == 1 {
                create_call(t, "first"@)
            } else {
                match replies[1] {
                    FsReply::Mutated(Err(e)) => FsCallView::Done(
                        skipped("fixture CreateIfAbsent rejected: "@ + e@.shown()),
                    ),
                    FsReply::Mutated(Ok(_)) => if replies.len() == 2 {
                        create_call(t, "second"@)
                    } else if replies.len() == 3 {
                        FsCallView::Read(t, usize::MAX)
                    } else {
                        match (replies[2], replies[3]) {
                            (FsReply::Mutated(second), FsReply::Read(after)) => FsCallView::Done(
                                failed(create_findings(second, after)),
                            ),
                            _ => astray(),
                        }
                    },
                    _ => astray(),
                }
            },
            _ => astray(),
        }
    }
}

fn create_if_absent_step(replies: &Vec<FsReply>) -> (r: FsCall)
    ensures
        r@ == create_if_absent_next(replies@),
{
    if replies.len() == 0 {
        return FsCall::Resolve(owned("conf/create_if_absent.txt"));
    }
    match &replies[0] {
        FsReply::Resolved(Err(e)) => FsCall::Done(skipped_cx("resolve rejected: ", e)),
        FsReply::Resolved(Ok(t)) => {
            let guard = Some(WriteGuard::CreateIfAbsent);
            if replies.len() == 1 {
                return FsCall::Write { target: t.copy(), contents: bytes_of("first"), guard };
            }
            match &replies[1] {
                FsReply::Mutated(Err(e)) => FsCall::Done(
                    skipped_cx("fixture CreateIfAbsent rejected: ", e),
                ),
                FsReply::Mutated(Ok(_)) => {
                    if replies.len() == 2 {
                        return FsCall::Write {
                            target: t.copy(),
                            contents: bytes_of("second"),
                            guard,
                        };
                    }
                    if replies.len() == 3 {
                        return FsCall::Read(t.copy(), usize::MAX);
                    }
                    match (&replies[2], &replies[3]) {
                        (FsReply::Mutated(second), FsReply::Read(after)) => {
                            let mut cx = Cx::new();
                            judge_refusal(
                                &mut cx,
                                code(second),
                                ErrorCode::NotFound,
                                "CreateIfAbsent on existing target failed with `",
                                "`, expected `not-found`",
                                "CreateIfAbsent succeeded on an existing target; guard ignored",
                            );
                            judge_contents(
                                &mut cx,
                                after,
                                "first".as_bytes(),
                                "refused CreateIfAbsent mutated the file to ",
                                "read after refused CreateIfAbsent failed: ",
                            );
                            assert(cx@ =~= failed(create_findings(*second, *after)));
                            FsCall::Done(cx)
                        },
                        _ => lost(),
                    }
                },
                _ => lost(),
            }
        },
        _ => lost(),
    }
}

/// What a look beside a file comes to, after `before` was found.
pub open spec fn beside_next(
    replies: Seq<FsReply>,
    at: int,
    before: CxView,
    pre: Seq<char>,
) -> FsCallView {
    match beside(replies, at) {
        BesideView::Ask(call) => call,
        BesideView::Seen(debris) => FsCallView::Done(
            before.and_failed(debris_findings(debris, pre)),
        ),
    }
}

fn beside_step(replies: &Vec<FsReply>, at: usize, before: Cx, pre: &str) -> (r: FsCall)
    requires
        at <= 8,
    ensures
        r@ == beside_next(replies@, at as int, before@, pre@),
{
    match look(replies, at) {
        Beside::Ask(call) => call,
        Beside::Seen(debris) => {
            let mut cx = before;
            judge_debris(&mut cx, &debris, pre);
            FsCall::Done(cx)
        },
    }
}

/// Write a file twice, then look beside it; a refused second write is a skip.
pub open spec fn atomic_write_no_debris_next(replies: Seq<FsReply>) -> FsCallView {
    let path = "conf/atomic_write.txt"@;
    let pre = "atomic write left temp/backup debris in the directory: "@;
    match fixture(path, encode_utf8("one"@), replies, 0) {
        FixtureView::Ask(call) => call,
        FixtureView::Refused { e, .. } => FsCallView::Done(rejected(path, e)),
        FixtureView::Ready(_) => match fixture(path, encode_utf8("two"@), replies, 2) {
            FixtureView::Ask(call) => call,
            FixtureView::Refused { e, used } => beside_next(
                replies,
                used,
                rejected(path, e),
                pre,
            ),
            FixtureView::Ready(_) => beside_next(replies, 4, clean(), pre),
        },
    }
}

fn atomic_write_no_debris_step(replies: &Vec<FsReply>) -> (r: FsCall)
    ensures
        r@ == atomic_write_no_debris_next(replies@),
{
    let path = "conf/atomic_write.txt";
    let pre = "atomic write left temp/backup debris in the directory: ";
    match seed(path, "one".as_bytes(), replies, 0) {
        Fixture::Ask(call) => call,
        Fixture::Refused { e, .. } => FsCall::Done(rejected_cx(path, e)),
        Fixture::Ready(_) => match seed(path, "two".as_bytes(), replies, 2) {
            Fixture::Ask(call) => call,
            Fixture::Refused { e, used } => beside_step(replies, used, rejected_cx(path, e), pre),
            Fixture::Ready(_) => beside_step(replies, 4, Cx::new(), pre),
        },
    }
}

/// Edit a file, then look beside it.
pub open spec fn atomic_edit_no_debris_next(replies: Seq<FsReply>) -> FsCallView {
    match fixture("conf/atomic_edit.txt"@, encode_utf8("hello world"@), replies, 0) {
        FixtureView::Ask(call) => call,
        FixtureView::Refused { e, .. } => FsCallView::Done(rejected("conf/atomic_edit.txt"@, e)),
        FixtureView::Ready(t) => if replies.len() == 2 {
            FsCallView::Edit { target: t, find: "world"@, replace: "there"@, guard: None }
        } else {
            match replies[2] {
                FsReply::Mutated(Err(e)) => FsCallView::Done(
                    failed(seq!["edit failed: "@ + e@.shown()]),
                ),
                FsReply::Mutated(Ok(_)) => beside_next(
                    replies,
                    3,
                    clean(),
                    "atomic edit left temp/backup debris in the directory: "@,
                ),
                _ => astray(),
            }
        },
    }
}

fn atomic_edit_no_debris_step(replies: &Vec<FsReply>) -> (r: FsCall)
    ensures
        r@ == atomic_edit_no_debris_next(replies@),
{
    match seed("conf/atomic_edit.txt", "hello world".as_bytes(), replies, 0) {
        Fixture::Ask(call) => call,
        Fixture::Refused { e, .. } => FsCall::Done(rejected_cx("conf/atomic_edit.txt", e)),
        Fixture::Ready(t) => {
            if replies.len() == 2 {
                return FsCall::Edit {
                    target: t.copy(),
                    find: owned("world"),
                    replace: owned("there"),
                    guard: None,
                };
            }
            match &replies[2] {
                FsReply::Mutated(Err(e)) => {
                    let mut cx = Cx::new();
                    cx.fail(cat("edit failed: ", e.display().as_str()));
                    assert(cx@ =~= failed(seq!["edit failed: "@ + e@.shown()]));
                    FsCall::Done(cx)
                },
                FsReply::Mutated(Ok(_)) => beside_step(
                    replies,
                    3,
                    Cx::new(),
                    "atomic edit left temp/backup debris in the directory: ",
                ),
                _ => lost(),
            }
        },
    }
}

/// Write a file twice and read it through both handles.
pub open spec fn overwrite_in_place_next(replies: Seq<FsReply>) -> FsCallView {
    let path = "conf/overwrite.txt"@;
    match fixture(path, encode_utf8("v1"@), replies, 0) {
        FixtureView::Ask(call) => call,
        FixtureView::Refused { e, .. } => FsCallView::Done(rejected(path, e)),
        FixtureView::Ready(a) => match fixture(path, encode_utf8("v2"@), replies, 2) {
            FixtureView::Ask(call) => call,
            FixtureView::Refused { e, .. } => FsCallView::Done(rejected(path, e)),
            FixtureView::Ready(b) => if replies.len() == 4 {
                FsCallView::Read(a, usize::MAX)
            } else if replies.len() == 5 {
                FsCallView::Read(b, usize::MAX)
            } else {
                match (replies[4], replies[5]) {
                    (FsReply::Read(old_read), FsReply::Read(new_read)) => FsCallView::Done(
                        failed(overwrite_findings(a, b, old_read, new_read)),
                    ),
                    _ => astray(),
                }
            },
        },
    }
}

fn overwrite_in_place_step(replies: &Vec<FsReply>) -> (r: FsCall)
    ensures
        r@ == overwrite_in_place_next(replies@),
{
    let path = "conf/overwrite.txt";
    match seed(path, "v1".as_bytes(), replies, 0) {
        Fixture::Ask(call) => call,
        Fixture::Refused { e, .. } => FsCall::Done(rejected_cx(path, e)),
        Fixture::Ready(a) => match seed(path, "v2".as_bytes(), replies, 2) {
            Fixture::Ask(call) => call,
            Fixture::Refused { e, .. } => FsCall::Done(rejected_cx(path, e)),
            Fixture::Ready(b) => {
                if replies.len() == 4 {
                    return FsCall::Read(a.copy(), usize::MAX);
                }
                if replies.len() == 5 {
                    return FsCall::Read(b.copy(), usize::MAX);
                }
                match (&replies[4], &replies[5]) {
                    (FsReply::Read(old_read), FsReply::Read(new_read)) => FsCall::Done(
                        judge_overwrite(a, b, old_read, new_read),
                    ),
                    _ => lost(),
                }
            },
        },
    }
}

/// Resolve four spellings of one file.
pub open spec fn same_file_same_key_next(replies: Seq<FsReply>) -> FsCallView {
    match fixture("conf/identity.txt"@, encode_utf8("same"@), replies, 0) {
        FixtureView::Ask(call) => call,
        FixtureView::Refused { e, .. } => FsCallView::Done(rejected("conf/identity.txt"@, e)),
        FixtureView::Ready(_) => if replies.len() < 6 {
            FsCallView::Resolve(SPELLINGS@[replies.len() - 2]@)
        } else if replies[2] is Resolved && replies[3] is Resolved && replies[4] is Resolved
            && replies[5] is Resolved {
            let answers = spelled(replies);
            FsCallView::Done(failed(spelling_failures(answers, 4) + spelling_splits(answers, 4)))
        } else {
            astray()
        },
    }
}

fn is_resolved(reply: &FsReply) -> (r: bool)
    ensures
        r == (*reply is Resolved),
{
    match reply {
        FsReply::Resolved(_) => true,
        _ => false,
    }
}

fn same_file_same_key_step(replies: &Vec<FsReply>) -> (r: FsCall)
    ensures
        r@ == same_file_same_key_next(replies@),
{
    match seed("conf/identity.txt", "same".as_bytes(), replies, 0) {
        Fixture::Ask(call) => call,
        Fixture::Refused { e, .. } => FsCall::Done(rejected_cx("conf/identity.txt", e)),
        Fixture::Ready(_) => {
            if replies.len() < 6 {
                return FsCall::Resolve(owned(SPELLINGS[replies.len() - 2]));
            }
            if is_resolved(&replies[2]) && is_resolved(&replies[3]) && is_resolved(&replies[4])
                && is_resolved(&replies[5]) {
                FsCall::Done(judge_spellings(replies))
            } else {
                lost()
            }
        },
    }
}

/// Read through a forged key, then through a spoofed display.
pub open spec fn forged_target_refused_next(replies: Seq<FsReply>) -> FsCallView {
    match fixture("conf/forged.txt"@, encode_utf8("real"@), replies, 0) {
        FixtureView::Ask(call) => call,
        FixtureView::Refused { e, .. } => FsCallView::Done(rejected("conf/forged.txt"@, e)),
        FixtureView::Ready(t) => if replies.len() == 2 {
            FsCallView::ReadAs { key: TargetKey(u64::MAX), display: t.display@ }
        } else {
            match replies[2] {
                FsReply::Read(forged) => match fixture(
                    "conf/other.txt"@,
                    encode_utf8("other"@),
                    replies,
                    3,
                ) {
                    FixtureView::Ask(call) => call,
                    FixtureView::Refused { e, .. } => FsCallView::Done(
                        rejected("conf/other.txt"@, e).and_failed(forged_key_findings(forged)),
                    ),
                    FixtureView::Ready(o) => if o.key == t.key {
                        FsCallView::Done(
                            skipped(
                                "distinct paths resolved to the same key; cannot test display spoofing"@,
                            ).and_failed(forged_key_findings(forged)),
                        )
                    } else if replies.len() == 5 {
                        FsCallView::ReadAs { key: t.key, display: o.display@ }
                    } else {
                        match replies[5] {
                            FsReply::Read(spoofed) => FsCallView::Done(
                                failed(forged_key_findings(forged) + spoofed_findings(spoofed)),
                            ),
                            _ => astray(),
                        }
                    },
                },
                _ => astray(),
            }
        },
    }
}

fn forged_target_refused_step(replies: &Vec<FsReply>) -> (r: FsCall)
    ensures
        r@ == forged_target_refused_next(replies@),
{
    let t = match seed("conf/forged.txt", "real".as_bytes(), replies, 0) {
        Fixture::Ask(call) => {
            return call;
        },
        Fixture::Refused { e, .. } => {
            return FsCall::Done(rejected_cx("conf/forged.txt", e));
        },
        Fixture::Ready(t) => t,
    };
    if replies.len() == 2 {
        return FsCall::ReadAs { key: TargetKey(u64::MAX), display: t.display.clone() };
    }
    let mut cx = Cx::new();
    match &replies[2] {
        FsReply::Read(forged) => {
            judge_forged_key(&mut cx, forged);
            let ghost base = forged_key_findings(*forged);
            assert(cx@ =~= failed(base));
            match seed("conf/other.txt", "other".as_bytes(), replies, 3) {
                Fixture::Ask(call) => call,
                Fixture::Refused { e, .. } => {
                    reject(&mut cx, "conf/other.txt", e);
                    assert(cx@ =~= rejected("conf/other.txt"@, e@).and_failed(base));
                    FsCall::Done(cx)
                },
                Fixture::Ready(o) => {
                    if o.key == t.key {
                        cx.skip(
                            owned(
                                "distinct paths resolved to the same key; cannot test display spoofing",
                            ),
                        );
                        assert(cx@ =~= skipped(
                            "distinct paths resolved to the same key; cannot test display spoofing"@,
                        ).and_failed(base));
                        return FsCall::Done(cx);
                    }
                    if replies.len() == 5 {
                        return FsCall::ReadAs { key: t.key, display: o.display.clone() };
                    }
                    match &replies[5] {
                        FsReply::Read(spoofed) => {
                            judge_spoofed(&mut cx, spoofed);
                            assert(cx@ =~= failed(base + spoofed_findings(*spoofed)));
                            FsCall::Done(cx)
                        },
                        _ => lost(),
                    }
                },
            }
        },
        _ => lost(),
    }
}

/// A hundred lines, read with a cap of five hundred bytes.
pub open spec fn windowed_read_past_cap_next(replies: Seq<FsReply>) -> FsCallView {
    match fixture("conf/window.txt"@, encode_utf8(long_lines(100)), replies, 0) {
        FixtureView::Ask(call) => call,
        FixtureView::Refused { e, .. } => FsCallView::Done(rejected("conf/window.txt"@, e)),
        FixtureView::Ready(t) => if replies.len() == 2 {
            FsCallView::Read(t, 500)
        } else {
            match replies[2] {
                FsReply::Read(got) => FsCallView::Done(failed(capped_findings(got))),
                _ => astray(),
            }
        },
    }
}

fn windowed_read_past_cap_step(replies: &Vec<FsReply>) -> (r: FsCall)
    ensures
        r@ == windowed_read_past_cap_next(replies@),
{
    let body = long_fixture();
    match seed("conf/window.txt", body.as_str().as_bytes(), replies, 0) {
        Fixture::Ask(call) => call,
        Fixture::Refused { e, .. } => FsCall::Done(rejected_cx("conf/window.txt", e)),
        Fixture::Ready(t) => {
            if replies.len() == 2 {
                return FsCall::Read(t.copy(), 500);
            }
            match &replies[2] {
                FsReply::Read(got) => FsCall::Done(judge_capped(got)),
                _ => lost(),
            }
        },
    }
}

/// Ten lines, read without a cap.
pub open spec fn windowed_read_no_cap_next(replies: Seq<FsReply>) -> FsCallView {
    match fixture("conf/window_full.txt"@, encode_utf8(short_lines(10)), replies, 0) {
        FixtureView::Ask(call) => call,
        FixtureView::Refused { e, .. } => FsCallView::Done(rejected("conf/window_full.txt"@, e)),
        FixtureView::Ready(t) => if replies.len() == 2 {
            FsCallView::Read(t, usize::MAX)
        } else {
            match replies[2] {
                FsReply::Read(got) => FsCallView::Done(
                    failed(uncapped_findings(got, encode_utf8(short_lines(10)))),
                ),
                _ => astray(),
            }
        },
    }
}

fn windowed_read_no_cap_step(replies: &Vec<FsReply>) -> (r: FsCall)
    ensures
        r@ == windowed_read_no_cap_next(replies@),
{
    let body = short_fixture();
    match seed("conf/window_full.txt", body.as_str().as_bytes(), replies, 0) {
        Fixture::Ask(call) => call,
        Fixture::Refused { e, .. } => FsCall::Done(rejected_cx("conf/window_full.txt", e)),
        Fixture::Ready(t) => {
            if replies.len() == 2 {
                return FsCall::Read(t.copy(), usize::MAX);
            }
            match &replies[2] {
                FsReply::Read(got) => FsCall::Done(judge_uncapped(got, body.as_str().as_bytes())),
                _ => lost(),
            }
        },
    }
}

/// Read a path nothing was ever written to.
pub open spec fn read_missing_is_not_found_next(replies: Seq<FsReply>) -> FsCallView {
    if replies.len() == 0 {
        FsCallView::Resolve("conf/definitely-missing-9f3a.txt"@)
    } else {
        match replies[0] {
            FsReply::Resolved(Err(e)) => FsCallView::Done(failed(unresolved_findings(e.code))),
            FsReply::Resolved(Ok(t)) => if replies.len() == 1 {
                FsCallView::Read(t, usize::MAX)
            } else {
                match replies[1] {
                    FsReply::Read(got) => FsCallView::Done(failed(missing_read_findings(got))),
                    _ => astray(),
                }
            },
            _ => astray(),
        }
    }
}

fn read_missing_is_not_found_step(replies: &Vec<FsReply>) -> (r: FsCall)
    ensures
        r@ == read_missing_is_not_found_next(replies@),
{
    if replies.len() == 0 {
        return FsCall::Resolve(owned("conf/definitely-missing-9f3a.txt"));
    }
    let mut cx = Cx::new();
    match &replies[0] {
        FsReply::Resolved(Err(e)) => {
            if e.code != ErrorCode::NotFound {
                cx.fail(
                    cat3(
                        "resolving a missing path failed with `",
                        e.code.as_str(),
                        "`, expected `not-found`",
                    ),
                );
            }
            assert(cx@ =~= failed(unresolved_findings(e.code)));
            FsCall::Done(cx)
        },
        FsReply::Resolved(Ok(t)) => {
            if replies.len() == 1 {
                return FsCall::Read(t.copy(), usize::MAX);
            }
            match &replies[1] {
                FsReply::Read(got) => {
                    judge_refusal(
                        &mut cx,
                        code(got),
                        ErrorCode::NotFound,
                        "reading a missing file failed with `",
                        "`, expected `not-found`",
                        "reading a missing file succeeded",
                    );
                    assert(cx@ =~= failed(missing_read_findings(*got)));
                    FsCall::Done(cx)
                },
                _ => lost(),
            }
        },
        _ => lost(),
    }
}

/// List a regular file.
pub open spec fn list_file_is_not_a_directory_next(replies: Seq<FsReply>) -> FsCallView {
    match fixture("conf/notadir.txt"@, encode_utf8("file"@), replies, 0) {
        FixtureView::Ask(call) => call,
        FixtureView::Refused { e, .. } => FsCallView::Done(rejected("conf/notadir.txt"@, e)),
        FixtureView::Ready(t) => if replies.len() == 2 {
            FsCallView::List(t)
        } else {
            match replies[2] {
                FsReply::Listed(got) => FsCallView::Done(
                    failed(
                        crate::conformance::fs_suite::refusal_findings(
                            code_of(got),
                            ErrorCode::NotADirectory,
                            "listing a file failed with `"@,
                            "`, expected `not-a-directory`"@,
                            "listing a regular file succeeded"@,
                        ),
                    ),
                ),
                _ => astray(),
            }
        },
    }
}

fn list_file_is_not_a_directory_step(replies: &Vec<FsReply>) -> (r: FsCall)
    ensures
        r@ == list_file_is_not_a_directory_next(replies@),
{
    match seed("conf/notadir.txt", "file".as_bytes(), replies, 0) {
        Fixture::Ask(call) => call,
        Fixture::Refused { e, .. } => FsCall::Done(rejected_cx("conf/notadir.txt", e)),
        Fixture::Ready(t) => {
            if replies.len() == 2 {
                return FsCall::List(t.copy());
            }
            match &replies[2] {
                FsReply::Listed(got) => FsCall::Done(
                    refusal_cx(
                        code(got),
                        ErrorCode::NotADirectory,
                        "listing a file failed with `",
                        "`, expected `not-a-directory`",
                        "listing a regular file succeeded",
                    ),
                ),
                _ => lost(),
            }
        },
    }
}

fn refusal_cx(
    got: Option<ErrorCode>,
    want: ErrorCode,
    pre: &str,
    post: &str,
    succeeded: &str,
) -> (r: Cx)
    ensures
        r@ == failed(
            crate::conformance::fs_suite::refusal_findings(got, want, pre@, post@, succeeded@),
        ),
{
    let mut cx = Cx::new();
    judge_refusal(&mut cx, got, want, pre, post, succeeded);
    assert(cx@ =~= failed(
        crate::conformance::fs_suite::refusal_findings(got, want, pre@, post@, succeeded@),
    ));
    cx
}

/// Write bytes that are not text, and read them.
pub open spec fn read_binary_is_not_text_next(replies: Seq<FsReply>) -> FsCallView {
    match fixture("conf/binary.bin"@, binary_fixture(), replies, 0) {
        FixtureView::Ask(call) => call,
        FixtureView::Refused { e, .. } => FsCallView::Done(
            skipped("provider refuses binary fixture writes: "@ + e.shown()),
        ),
        FixtureView::Ready(t) => if replies.len() == 2 {
            FsCallView::Read(t, usize::MAX)
        } else {
            match replies[2] {
                FsReply::Read(got) => FsCallView::Done(failed(binary_findings(got))),
                _ => astray(),
            }
        },
    }
}

fn read_binary_is_not_text_step(replies: &Vec<FsReply>) -> (r: FsCall)
    ensures
        r@ == read_binary_is_not_text_next(replies@),
{
    let binary: Vec<u8> = vec![0xff, 0xfe, 0x00, 0x80, 0x41];
    assert(binary@ =~= binary_fixture());
    match seed("conf/binary.bin", binary.as_slice(), replies, 0) {
        Fixture::Ask(call) => call,
        Fixture::Refused { e, .. } => FsCall::Done(
            skipped_cx("provider refuses binary fixture writes: ", e),
        ),
        Fixture::Ready(t) => {
            if replies.len() == 2 {
                return FsCall::Read(t.copy(), usize::MAX);
            }
            match &replies[2] {
                FsReply::Read(got) => FsCall::Done(judge_binary(got)),
                _ => lost(),
            }
        },
    }
}

/// Read the fixture directory.
pub open spec fn read_directory_is_not_a_regular_file_next(replies: Seq<FsReply>) -> FsCallView {
    if replies.len() == 0 {
        FsCallView::Resolve("conf"@)
    } else {
        match replies[0] {
            FsReply::Resolved(Err(e)) => FsCallView::Done(
                skipped("resolve of fixture dir rejected: "@ + e@.shown()),
            ),
            FsReply::Resolved(Ok(t)) => if replies.len() == 1 {
                FsCallView::Read(t, usize::MAX)
            } else {
                match replies[1] {
                    FsReply::Read(got) => FsCallView::Done(
                        failed(
                            crate::conformance::fs_suite::refusal_findings(
                                code_of(got),
                                ErrorCode::NotARegularFile,
                                "reading a directory failed with `"@,
                                "`, expected `not-a-regular-file`"@,
                                "reading a directory succeeded"@,
                            ),
                        ),
                    ),
                    _ => astray(),
                }
            },
            _ => astray(),
        }
    }
}

fn read_directory_is_not_a_regular_file_step(replies: &Vec<FsReply>) -> (r: FsCall)
    ensures
        r@ == read_directory_is_not_a_regular_file_next(replies@),
{
    if replies.len() == 0 {
        return FsCall::Resolve(owned("conf"));
    }
    match &replies[0] {
        FsReply::Resolved(Err(e)) => FsCall::Done(
            skipped_cx("resolve of fixture dir rejected: ", e),
        ),
        FsReply::Resolved(Ok(t)) => {
            if replies.len() == 1 {
                return FsCall::Read(t.copy(), usize::MAX);
            }
            match &replies[1] {
                FsReply::Read(got) => FsCall::Done(
                    refusal_cx(
                        code(got),
                        ErrorCode::NotARegularFile,
                        "reading a directory failed with `",
                        "`, expected `not-a-regular-file`",
                        "reading a directory succeeded",
                    ),
                ),
                _ => lost(),
            }
        },
        _ => lost(),
    }
}

/// Make a file unreadable to the process, read it, and make it readable again.
pub open spec fn permission_denied_vs_sandbox_denied_next(replies: Seq<FsReply>) -> FsCallView {
    match fixture("conf/perm_denied.txt"@, encode_utf8("secret"@), replies, 0) {
        FixtureView::Ask(call) => call,
        FixtureView::Refused { e, .. } => FsCallView::Done(rejected("conf/perm_denied.txt"@, e)),
        FixtureView::Ready(t) => if replies.len() == 2 {
            FsCallView::Resolve(t.display@)
        } else {
            match replies[2] {
                FsReply::Resolved(again) => if !(again is Ok && again->Ok_0.key == t.key) {
                    FsCallView::Done(skipped(no_round_trip()))
                } else if replies.len() == 3 {
                    FsCallView::Chmod { path: t.display@, mode: 0 }
                } else {
                    match replies[3] {
                        FsReply::Moded(None) => FsCallView::Done(
                            skipped("platform has no chmod; cannot build OS permission fixture"@),
                        ),
                        FsReply::Moded(Some(false)) => FsCallView::Done(
                            skipped(
                                "cannot tighten permissions for the current user (root or platform policy); skipping OS permission fixture"@,
                            ),
                        ),
                        FsReply::Moded(Some(true)) => if replies.len() == 4 {
                            FsCallView::Read(t, usize::MAX)
                        } else if replies.len() == 5 {
                            FsCallView::Chmod { path: t.display@, mode: 420 }
                        } else {
                            match replies[4] {
                                FsReply::Read(got) => FsCallView::Done(
                                    failed(denied_findings(got)),
                                ),
                                _ => astray(),
                            }
                        },
                        _ => astray(),
                    }
                },
                _ => astray(),
            }
        },
    }
}

fn skip_cx(why: &str) -> (r: Cx)
    ensures
        r@ == skipped(why@),
{
    let mut cx = Cx::new();
    cx.skip(owned(why));
    assert(cx@ =~= skipped(why@));
    cx
}

fn permission_denied_vs_sandbox_denied_step(replies: &Vec<FsReply>) -> (r: FsCall)
    ensures
        r@ == permission_denied_vs_sandbox_denied_next(replies@),
{
    let t = match seed("conf/perm_denied.txt", "secret".as_bytes(), replies, 0) {
        Fixture::Ask(call) => {
            return call;
        },
        Fixture::Refused { e, .. } => {
            return FsCall::Done(rejected_cx("conf/perm_denied.txt", e));
        },
        Fixture::Ready(t) => t,
    };
    if replies.len() == 2 {
        return FsCall::Resolve(t.display.clone());
    }
    match &replies[2] {
        FsReply::Resolved(again) => {
            let same_file = match again {
                Ok(a) => a.key == t.key,
                Err(_) => false,
            };
            if !same_file {
                return FsCall::Done(
                    skip_cx(
                        "provider display does not round-trip through resolve; cannot build an OS permission fixture",
                    ),
                );
            }
        },
        _ => {
            return lost();
        },
    }
    if replies.len() == 3 {
        return FsCall::Chmod { path: t.display.clone(), mode: 0 };
    }
    match &replies[3] {
        FsReply::Moded(None) => FsCall::Done(
            skip_cx("platform has no chmod; cannot build OS permission fixture"),
        ),
        FsReply::Moded(Some(false)) => FsCall::Done(
            skip_cx(
                "cannot tighten permissions for the current user (root or platform policy); skipping OS permission fixture",
            ),
        ),
        FsReply::Moded(Some(true)) => {
            if replies.len() == 4 {
                return FsCall::Read(t.copy(), usize::MAX);
            }
            if replies.len() == 5 {
                return FsCall::Chmod { path: t.display.clone(), mode: 420 };
            }
            match &replies[4] {
                FsReply::Read(got) => FsCall::Done(judge_denied(got)),
                _ => lost(),
            }
        },
        _ => lost(),
    }
}

// ---------------------------------------------------------------------------
// All of them
// ---------------------------------------------------------------------------

/// The call a case makes after these answers, or what it came to.
pub open spec fn next(case: FsCase, replies: Seq<FsReply>) -> FsCallView {
    match case {
        FsCase::WriteThenRead => write_then_read_next(replies),
        FsCase::UnobservedGuardedWrite => unobserved_guarded_write_next(replies),
        FsCase::CreateIfAbsent => create_if_absent_next(replies),
        FsCase::AtomicWriteNoDebris => atomic_write_no_debris_next(replies),
        FsCase::AtomicEditNoDebris => atomic_edit_no_debris_next(replies),
        FsCase::OverwriteInPlace => overwrite_in_place_next(replies),
        FsCase::SameFileSameKey => same_file_same_key_next(replies),
        FsCase::ForgedTargetRefused => forged_target_refused_next(replies),
        FsCase::WindowedReadPastCap => windowed_read_past_cap_next(replies),
        FsCase::WindowedReadNoCap => windowed_read_no_cap_next(replies),
        FsCase::ReadMissingIsNotFound => read_missing_is_not_found_next(replies),
        FsCase::ListFileIsNotADirectory => list_file_is_not_a_directory_next(replies),
        FsCase::ReadBinaryIsNotText => read_binary_is_not_text_next(replies),
        FsCase::ReadDirectoryIsNotARegularFile => read_directory_is_not_a_regular_file_next(replies),
        FsCase::PermissionDeniedVsSandboxDenied => permission_denied_vs_sandbox_denied_next(
            replies,
        ),
    }
}

/// The call a case makes after these answers, or what it came to.
pub fn next_call(case: FsCase, replies: &Vec<FsReply>) -> (r: FsCall)
    ensures
        r@ == next(case, replies@),
{
    match case {
        FsCase::WriteThenRead => write_then_read_step(replies),
        FsCase::UnobservedGuardedWrite => unobserved_guarded_write_step(replies),
        FsCase::CreateIfAbsent => create_if_absent_step(replies),
        FsCase::AtomicWriteNoDebris => atomic_write_no_debris_step(replies),
        FsCase::AtomicEditNoDebris => atomic_edit_no_debris_step(replies),
        FsCase::OverwriteInPlace => overwrite_in_place_step(replies),
        FsCase::SameFileSameKey => same_file_same_key_step(replies),
        FsCase::ForgedTargetRefused => forged_target_refused_step(replies),
        FsCase::WindowedReadPastCap => windowed_read_past_cap_step(replies),
        FsCase::WindowedReadNoCap => windowed_read_no_cap_step(replies),
        FsCase::ReadMissingIsNotFound => read_missing_is_not_found_step(replies),
        FsCase::ListFileIsNotADirectory => list_file_is_not_a_directory_step(replies),
        FsCase::ReadBinaryIsNotText => read_binary_is_not_text_step(replies),
        FsCase::ReadDirectoryIsNotARegularFile => read_directory_is_not_a_regular_file_step(replies),
        FsCase::PermissionDeniedVsSandboxDenied => permission_denied_vs_sandbox_denied_step(
            replies,
        ),
    }
}

// ---------------------------------------------------------------------------
// Laws
// ---------------------------------------------------------------------------

/// A case is over after six answers at most.
pub proof fn law_a_case_ends(case: FsCase, replies: Seq<FsReply>)
    requires
        replies.len() >= 6,
    ensures
        next(case, replies) is Done,
{
}

impl FsCase {
    /// The path and the contents of the fixture that a case writes first, where it
    /// writes one.
    pub open spec fn first_fixture(self) -> Option<(Seq<char>, Seq<u8>)> {
        match self {
            FsCase::WriteThenRead => Some(("conf/write_then_read.txt"@, encode_utf8("hello"@))),
            FsCase::UnobservedGuardedWrite => Some(("conf/unobserved.txt"@, encode_utf8("seed"@))),
            FsCase::CreateIfAbsent => None,
            FsCase::AtomicWriteNoDebris => Some(("conf/atomic_write.txt"@, encode_utf8("one"@))),
            FsCase::AtomicEditNoDebris => Some(
                ("conf/atomic_edit.txt"@, encode_utf8("hello world"@)),
            ),
            FsCase::OverwriteInPlace => Some(("conf/overwrite.txt"@, encode_utf8("v1"@))),
            FsCase::SameFileSameKey => Some(("conf/identity.txt"@, encode_utf8("same"@))),
            FsCase::ForgedTargetRefused => Some(("conf/forged.txt"@, encode_utf8("real"@))),
            FsCase::WindowedReadPastCap => Some(
                ("conf/window.txt"@, encode_utf8(long_lines(100))),
            ),
            FsCase::WindowedReadNoCap => Some(
                ("conf/window_full.txt"@, encode_utf8(short_lines(10))),
            ),
            FsCase::ReadMissingIsNotFound => None,
            FsCase::ListFileIsNotADirectory => Some(("conf/notadir.txt"@, encode_utf8("file"@))),
            FsCase::ReadBinaryIsNotText => Some(("conf/binary.bin"@, binary_fixture())),
            FsCase::ReadDirectoryIsNotARegularFile => None,
            FsCase::PermissionDeniedVsSandboxDenied => Some(
                ("conf/perm_denied.txt"@, encode_utf8("secret"@)),
            ),
        }
    }
}

/// Nothing is probed before its fixture is there: a case with a fixture resolves
/// the path, then writes the contents unguarded to what that named, and only then
/// asks for anything else. A provider that refuses either call is not blamed: the
/// case is over, with nothing failed.
pub proof fn law_the_fixture_comes_first(case: FsCase, replies: Seq<FsReply>)
    requires
        case.first_fixture() is Some,
    ensures
        replies.len() == 0 ==> next(case, replies) == FsCallView::Resolve(
            case.first_fixture()->Some_0.0,
        ),
        replies.len() == 1 ==> (replies[0] matches FsReply::Resolved(Ok(target)) ==> next(
            case,
            replies,
        ) == (FsCallView::Write { target, contents: case.first_fixture()->Some_0.1, guard: None })),
        replies.len() >= 1 ==> (replies[0] matches FsReply::Resolved(Err(_)) ==> (next(
            case,
            replies,
        ) matches FsCallView::Done(out) && out.failures.len() == 0 && out.skips.len() == 1)),
        replies.len() >= 2 && replies[0] is Resolved && replies[0]->Resolved_0 is Ok ==> (
        replies[1] matches FsReply::Mutated(Err(_)) ==> (next(case, replies) matches FsCallView::Done(
            out,
        ) && out.failures.len() == 0 && out.skips.len() == 1)),
{
}

} // verus!
