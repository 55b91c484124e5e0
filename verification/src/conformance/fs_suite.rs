//! The filesystem conformance suite.

use vstd::prelude::*;
use vstd::utf8::encode_utf8;

use crate::conformance::fs_cases::{law_a_case_ends, next, next_call, FsCase};
use crate::conformance::fs_run::{
    asks, begun, calls_left, lemma_asks, moved, FsCall, FsCallView, FsReply, GuardCase, GuardRun,
    GuardStageView,
};
use crate::conformance::report::{
    failed, finding, skipped, violations_view, Cx, CxView, Violation, ViolationView,
};
use crate::local_fs::bytes::{line_count, line_total, push_range};
use crate::seam::error::{ErrorCode, SeamError, SeamErrorView};
use crate::seam::fs::{
    Edit, Entry, FileSystem, MutationResult, ReadWindow, Target, TargetKey, VersionToken, WriteGuard,
};
use crate::text::{
    cat, cat3, cat5, cat7, contains, debug_text, debug_texts, decimal, decimal_text, digit_char,
    ends_in, ends_with, lossy_text, lower_text, lowered, occurs, occurs_at, owned, quoted, quoted_list,
    same, same_bytes, starts_with, texts, utf8_lossy,
};

verus! {

// ---------------------------------------------------------------------------
// Exchanges
// ---------------------------------------------------------------------------

/// `r` is an answer of the provider to resolving `path`.
pub open spec fn resolves<F: FileSystem>(
    fs: &F,
    path: Seq<char>,
    r: Result<Target, SeamError>,
) -> bool {
    exists|p: &str| p@ == path && #[trigger] call_ensures(F::resolve, (fs, p), r)
}

/// `r` is an answer of the provider to reading `target`.
pub open spec fn reads<F: FileSystem>(
    fs: &F,
    target: Target,
    cap: usize,
    r: Result<ReadWindow, SeamError>,
) -> bool {
    call_ensures(F::read, (fs, &target, cap), r)
}

/// `r` is an answer of the provider to writing `contents` to `target`.
pub open spec fn writes<F: FileSystem>(
    fs: &F,
    target: Target,
    contents: Seq<u8>,
    guard: Option<WriteGuard>,
    r: Result<MutationResult, SeamError>,
) -> bool {
    exists|c: &[u8]| c@ == contents && #[trigger] call_ensures(F::write, (fs, &target, c, guard), r)
}

fn do_resolve<F: FileSystem>(fs: &F, path: &str) -> (r: Result<Target, SeamError>)
    ensures
        resolves(fs, path@, r),
{
    fs.resolve(path)
}

fn do_read<F: FileSystem>(fs: &F, target: &Target, cap: usize) -> (r: Result<ReadWindow, SeamError>)
    ensures
        reads(fs, *target, cap, r),
{
    fs.read(target, cap)
}

fn do_write<F: FileSystem>(
    fs: &F,
    target: &Target,
    contents: &[u8],
    guard: Option<WriteGuard>,
) -> (r: Result<MutationResult, SeamError>)
    ensures
        writes(fs, *target, contents@, guard, r),
{
    fs.write(target, contents, guard)
}

/// `r` is an answer of the provider to one literal replacement in `target`.
pub open spec fn edits<F: FileSystem>(
    fs: &F,
    target: Target,
    find: Seq<char>,
    replace: Seq<char>,
    guard: Option<WriteGuard>,
    r: Result<MutationResult, SeamError>,
) -> bool {
    exists|e: Edit|
        e.find@ == encode_utf8(find) && e.replace@ == encode_utf8(replace)
            && #[trigger] call_ensures(F::edit, (fs, &target, &e, guard), r)
}

/// `r` is an answer of the provider to listing `target`.
pub open spec fn lists<F: FileSystem>(
    fs: &F,
    target: Target,
    r: Result<Vec<Entry>, SeamError>,
) -> bool {
    call_ensures(F::list, (fs, &target), r)
}

fn do_edit<F: FileSystem>(
    fs: &F,
    target: &Target,
    find: &str,
    replace: &str,
    guard: Option<WriteGuard>,
) -> (r: Result<MutationResult, SeamError>)
    ensures
        edits(fs, *target, find@, replace@, guard, r),
{
    let edit = Edit { find: bytes_of(find), replace: bytes_of(replace) };
    fs.edit(target, &edit, guard)
}

fn do_list<F: FileSystem>(fs: &F, target: &Target) -> (r: Result<Vec<Entry>, SeamError>)
    ensures
        lists(fs, *target, r),
{
    fs.list(target)
}

pub(crate) fn bytes_of(s: &str) -> (r: Vec<u8>)
    ensures
        r@ == encode_utf8(s@),
{
    let mut out: Vec<u8> = Vec::new();
    let bytes = s.as_bytes();
    push_range(&mut out, bytes, 0, bytes.len());
    assert(out@ =~= encode_utf8(s@));
    out
}

/// The skip a rejected fixture write leaves.
pub open spec fn rejected(path: Seq<char>, e: SeamErrorView) -> CxView {
    skipped(rejection(path, e))
}

/// What a rejected fixture write is reported as.
pub open spec fn rejection(path: Seq<char>, e: SeamErrorView) -> Seq<char> {
    "fixture write `"@ + path + "` rejected by provider: "@ + e.shown()
}

pub(crate) fn reject(cx: &mut Cx, path: &str, e: &SeamError)
    ensures
        final(cx)@ == old(cx)@.and_skipped(rejection(path@, e@)),
{
    cx.skip(
        crate::text::cat4("fixture write `", path, "` rejected by provider: ", e.display().as_str()),
    );
}

pub(crate) fn rejected_cx(path: &str, e: &SeamError) -> (r: Cx)
    ensures
        r@ == rejected(path@, e@),
{
    let mut cx = Cx::new();
    reject(&mut cx, path, e);
    assert(cx@ =~= rejected(path@, e@));
    cx
}

pub(crate) fn skipped_cx(pre: &str, e: &SeamError) -> (r: Cx)
    ensures
        r@ == skipped(pre@ + e@.shown()),
{
    let mut cx = Cx::new();
    cx.skip(cat(pre, e.display().as_str()));
    assert(cx@ =~= skipped(pre@ + e@.shown()));
    cx
}

// ---------------------------------------------------------------------------
// Judgements
// ---------------------------------------------------------------------------

/// The code of a refusal; `None` of a success.
pub open spec fn code_of<T>(r: Result<T, SeamError>) -> Option<ErrorCode> {
    match r {
        Ok(_) => None,
        Err(e) => Some(e.code),
    }
}

pub(crate) fn code<T>(r: &Result<T, SeamError>) -> (c: Option<ErrorCode>)
    ensures
        c == code_of(*r),
{
    match r {
        Ok(_) => None,
        Err(e) => Some(e.code),
    }
}

/// What is found of a call that must be refused with `want`: nothing when it
/// was; the code it was refused with otherwise; `succeeded` when it was not
/// refused at all.
pub open spec fn refusal_findings(
    got: Option<ErrorCode>,
    want: ErrorCode,
    pre: Seq<char>,
    post: Seq<char>,
    succeeded: Seq<char>,
) -> Seq<Seq<char>> {
    match got {
        Some(code) => finding(code != want, pre + code.spelling() + post),
        None => seq![succeeded],
    }
}

/// Judge a call that must be refused with `want`.
pub fn judge_refusal(
    cx: &mut Cx,
    got: Option<ErrorCode>,
    want: ErrorCode,
    pre: &str,
    post: &str,
    succeeded: &str,
)
    ensures
        final(cx)@ == old(cx)@.and_failed(refusal_findings(got, want, pre@, post@, succeeded@)),
{
    match got {
        Some(code) => {
            if code != want {
                cx.fail(cat3(pre, code.as_str(), post));
            }
        },
        None => cx.fail_str(succeeded),
    }
    assert(cx@ =~= old(cx)@.and_failed(refusal_findings(got, want, pre@, post@, succeeded@)));
}

/// What is found of a read that must return exactly `want`.
pub open spec fn contents_findings(
    got: Result<ReadWindow, SeamError>,
    want: Seq<u8>,
    pre: Seq<char>,
    failed_pre: Seq<char>,
) -> Seq<Seq<char>> {
    match got {
        Ok(w) => finding(w.contents@ != want, pre + debug_text(lossy_text(w.contents@))),
        Err(e) => seq![failed_pre + e@.shown()],
    }
}

/// Judge a read that must return exactly `want`.
pub fn judge_contents(
    cx: &mut Cx,
    got: &Result<ReadWindow, SeamError>,
    want: &[u8],
    pre: &str,
    failed_pre: &str,
)
    ensures
        final(cx)@ == old(cx)@.and_failed(contents_findings(*got, want@, pre@, failed_pre@)),
{
    match got {
        Ok(w) => {
            if !same_bytes(w.contents.as_slice(), want) {
                cx.fail(cat(pre, quoted(utf8_lossy(w.contents.as_slice()).as_str()).as_str()));
            }
        },
        Err(e) => cx.fail(cat(failed_pre, e.display().as_str())),
    }
    assert(cx@ =~= old(cx)@.and_failed(contents_findings(*got, want@, pre@, failed_pre@)));
}

// ---------------------------------------------------------------------------
// Version guards
// ---------------------------------------------------------------------------

/// What is found of reading `hello` back.
pub open spec fn hello_findings(got: Result<ReadWindow, SeamError>) -> Seq<Seq<char>> {
    let hello = encode_utf8("hello"@);
    match got {
        Ok(w) => finding(
            w.contents@ != hello,
            "read after write returned "@ + debug_text(lossy_text(w.contents@))
                + ", expected \"hello\""@,
        ) + finding(
            w.total_lines != line_total(hello),
            "total_lines = "@ + decimal_text(w.total_lines as nat) + ", expected "@ + decimal_text(
                line_total(hello),
            ),
        ) + finding(w.truncated, "read with no effective cap reported truncated = true"@),
        Err(e) => seq!["read after successful write failed: "@ + e@.shown()],
    }
}

/// Judge reading `hello` back.
pub fn judge_hello(got: &Result<ReadWindow, SeamError>) -> (r: Cx)
    ensures
        r@ == failed(hello_findings(*got)),
{
    let mut cx = Cx::new();
    let hello = "hello".as_bytes();
    match got {
        Ok(w) => {
            if !same_bytes(w.contents.as_slice(), hello) {
                cx.fail(
                    cat3(
                        "read after write returned ",
                        quoted(utf8_lossy(w.contents.as_slice()).as_str()).as_str(),
                        ", expected \"hello\"",
                    ),
                );
            }
            let lines: u64 = line_count(hello);
            if w.total_lines != lines {
                cx.fail(
                    crate::text::cat4(
                        "total_lines = ",
                        decimal(w.total_lines).as_str(),
                        ", expected ",
                        decimal(lines).as_str(),
                    ),
                );
            }
            if w.truncated {
                cx.fail_str("read with no effective cap reported truncated = true");
            }
        },
        Err(e) => cx.fail(cat("read after successful write failed: ", e.display().as_str())),
    }
    assert(cx@ =~= failed(hello_findings(*got)));
    cx
}

/// `got` is an answer of the provider to reading a handle with this key and
/// this display.
pub open spec fn reads_as<F: FileSystem>(
    fs: &F,
    key: TargetKey,
    display: Seq<char>,
    got: Result<ReadWindow, SeamError>,
) -> bool {
    exists|t: Target|
        t.key == key && t.display@ == display && #[trigger] reads(fs, t, usize::MAX, got)
}

fn do_read_as<F: FileSystem>(fs: &F, key: TargetKey, display: &str) -> (r: Result<
    ReadWindow,
    SeamError,
>)
    ensures
        reads_as(fs, key, display@, r),
{
    let t = Target { key, display: owned(display) };
    do_read(fs, &t, usize::MAX)
}

/// The host a provider runs on, as far as the permission fixture needs it.
pub trait Host {
    /// Set a file's mode. `None` where the platform has no such call, else
    /// whether it took.
    fn chmod(&self, path: &str, mode: u32) -> Option<bool>;
}

/// `r` is an answer of the host to setting the mode of `path`.
pub open spec fn chmods<H: Host>(host: &H, path: Seq<char>, mode: u32, r: Option<bool>) -> bool {
    exists|p: &str| p@ == path && #[trigger] call_ensures(H::chmod, (host, p, mode), r)
}

fn do_chmod<H: Host>(host: &H, path: &str, mode: u32) -> (r: Option<bool>)
    ensures
        chmods(host, path@, mode, r),
{
    host.chmod(path, mode)
}

/// A host without file modes.
pub struct Hostless;

impl Host for Hostless {
    fn chmod(&self, path: &str, mode: u32) -> Option<bool> {
        None
    }
}

/// Whether `reply` is an answer to `call`: of the host where a mode is set, else of
/// the provider.
pub open spec fn answers_on<F: FileSystem, H: Host>(
    fs: &F,
    host: &H,
    call: FsCallView,
    reply: FsReply,
) -> bool {
    match (call, reply) {
        (FsCallView::Chmod { path, mode }, FsReply::Moded(r)) => chmods(host, path, mode, r),
        _ => answers(fs, call, reply),
    }
}

/// Whether each of `replies` answers the call that the case makes after those
/// before it.
pub open spec fn heard<F: FileSystem, H: Host>(
    fs: &F,
    host: &H,
    case: FsCase,
    replies: Seq<FsReply>,
) -> bool {
    forall|i: int|
        0 <= i < replies.len() ==> answers_on(
            fs,
            host,
            next(case, replies.take(i)),
            #[trigger] replies[i],
        )
}

/// `out` is what the case comes to: its calls were made one after the other, each
/// the one that follows the answers before it.
pub open spec fn plays<F: FileSystem, H: Host>(
    fs: &F,
    host: &H,
    case: FsCase,
    out: CxView,
) -> bool {
    exists|replies: Seq<FsReply>| #[trigger]
        heard(fs, host, case, replies) && next(case, replies) == FsCallView::Done(out)
}

/// Make every call of a case, in turn.
fn play<F: FileSystem, H: Host>(fs: &F, host: &H, case: FsCase) -> (r: Cx)
    ensures
        plays(fs, host, case, r@),
{
    let mut replies: Vec<FsReply> = Vec::new();
    loop
        invariant
            heard(fs, host, case, replies@),
            replies@.len() <= 6,
        decreases 6 - replies@.len(),
    {
        let call = next_call(case, &replies);
        let ghost asked = replies@;
        let reply = match call {
            FsCall::Done(cx) => {
                assert(next(case, replies@) == FsCallView::Done(cx@));
                return cx;
            },
            FsCall::Chmod { path, mode } => FsReply::Moded(do_chmod(host, path.as_str(), mode)),
            call => perform(fs, &call),
        };
        proof {
            if asked.len() >= 6 {
                law_a_case_ends(case, asked);
            }
        }
        assert(answers_on(fs, host, next(case, asked), reply));
        replies.push(reply);
        assert forall|i: int| 0 <= i < replies@.len() implies answers_on(
            fs,
            host,
            next(case, replies@.take(i)),
            #[trigger] replies@[i],
        ) by {
            if i < asked.len() {
                assert(replies@.take(i) =~= asked.take(i));
                assert(replies@[i] == asked[i]);
            } else {
                assert(replies@.take(i) =~= asked);
            }
        }
    }
}

/// What is written is read back whole, with its line total, untruncated.
pub fn write_then_read<F: FileSystem>(fs: &F) -> (r: Cx)
    ensures
        plays(fs, &Hostless, FsCase::WriteThenRead, r@),
{
    play(fs, &Hostless, FsCase::WriteThenRead)
}

/// What is found of a write guarded by the current token.
pub open spec fn fresh_write_findings(fresh: Result<MutationResult, SeamError>) -> Seq<Seq<char>> {
    match fresh {
        Ok(_) => Seq::empty(),
        Err(e) => seq![
            "write guarded by the current token failed with `"@ + e.code.spelling()
                + "`; a fresh token must satisfy ReplaceAtVersion"@,
        ],
    }
}

/// Whether `reply` is an answer of the provider to `call`.
pub open spec fn answers<F: FileSystem>(fs: &F, call: FsCallView, reply: FsReply) -> bool {
    match (call, reply) {
        (FsCallView::Resolve(path), FsReply::Resolved(r)) => resolves(fs, path, r),
        (FsCallView::Read(target, cap), FsReply::Read(r)) => reads(fs, target, cap, r),
        (FsCallView::ReadAs { key, display }, FsReply::Read(r)) => reads_as(fs, key, display, r),
        (FsCallView::List(target), FsReply::Listed(r)) => lists(fs, target, r),
        (FsCallView::Write { target, contents, guard }, FsReply::Mutated(r)) => writes(
            fs,
            target,
            contents,
            guard,
            r,
        ),
        (FsCallView::Edit { target, find, replace, guard }, FsReply::Mutated(r)) => edits(
            fs,
            target,
            find,
            replace,
            guard,
            r,
        ),
        _ => false,
    }
}

/// Whether `replies` are the provider's answers to the calls of a guard case from
/// this point on, and `out` is what the case then comes to.
pub open spec fn conversed<F: FileSystem>(
    fs: &F,
    case: GuardCase,
    at: (GuardStageView, FsCallView),
    replies: Seq<FsReply>,
    out: CxView,
) -> bool
    decreases replies.len(),
{
    match at.1 {
        FsCallView::Done(cx) => replies.len() == 0 && cx == out,
        call => replies.len() > 0 && answers(fs, call, replies[0]) && conversed(
            fs,
            case,
            moved(case, at.0, replies[0]),
            replies.skip(1),
            out,
        ),
    }
}

/// The case, from its first call to its last.
pub open spec fn guard_case_run<F: FileSystem>(fs: &F, case: GuardCase, out: CxView) -> bool {
    exists|replies: Seq<FsReply>| #[trigger] conversed(fs, case, begun(case), replies, out)
}

/// Make a call of the provider's.
fn perform<F: FileSystem>(fs: &F, call: &FsCall) -> (r: FsReply)
    requires
        !(call@ is Done),
        !(call@ is Chmod),
    ensures
        answers(fs, call@, r),
{
    match call {
        FsCall::Resolve(path) => FsReply::Resolved(do_resolve(fs, path.as_str())),
        FsCall::Read(target, cap) => FsReply::Read(do_read(fs, target, *cap)),
        FsCall::ReadAs { key, display } => FsReply::Read(do_read_as(fs, *key, display.as_str())),
        FsCall::List(target) => FsReply::Listed(do_list(fs, target)),
        FsCall::Write { target, contents, guard } => FsReply::Mutated(
            do_write(fs, target, contents.as_slice(), *guard),
        ),
        FsCall::Edit { target, find, replace, guard } => FsReply::Mutated(
            do_edit(fs, target, find.as_str(), replace.as_str(), *guard),
        ),
        FsCall::Chmod { .. } | FsCall::Done(_) => {
            assert(false);
            FsReply::Read(Err(SeamError::new(ErrorCode::IoError, "")))
        },
    }
}

/// Make every call of a guard case, in turn.
fn drive<F: FileSystem>(fs: &F, run: GuardRun, call: FsCall) -> (r: Cx)
    requires
        asks(run.stage(), call@),
        !(run.stage() is Over),
    ensures
        exists|replies: Seq<FsReply>| #[trigger]
            conversed(fs, run.which(), (run.stage(), call@), replies, r@),
    decreases calls_left(run.stage()),
{
    let ghost case = run.which();
    let ghost at = (run.stage(), call@);
    let reply = perform(fs, &call);
    let ghost answer = reply;
    let (left, next) = run.resume(reply);
    proof {
        lemma_asks(case, at.0, answer);
    }
    match left {
        Some(run) => {
            let cx = drive(fs, run, next);
            proof {
                let rest = choose|replies: Seq<FsReply>| #[trigger]
                    conversed(fs, case, moved(case, at.0, answer), replies, cx@);
                let whole = seq![answer] + rest;
                assert(whole.skip(1) =~= rest);
                assert(conversed(fs, case, at, whole, cx@));
            }
            cx
        },
        None => match next {
            FsCall::Done(cx) => {
                proof {
                    let whole = seq![answer];
                    assert(whole.skip(1) =~= Seq::<FsReply>::empty());
                    assert(conversed(fs, case, moved(case, at.0, answer), whole.skip(1), cx@));
                    assert(conversed(fs, case, at, whole, cx@));
                }
                cx
            },
            _ => {
                assert(false);
                Cx::new()
            },
        },
    }
}

/// A token the file outlived is refused, and changes nothing; the current
/// token is accepted.
pub fn stale_version_guard<F: FileSystem>(fs: &F) -> (r: Cx)
    ensures
        guard_case_run(fs, GuardCase::StaleVersion, r@),
{
    let (run, call) = GuardRun::begin(GuardCase::StaleVersion);
    drive(fs, run, call)
}

/// What is found of a write guarded by a token that was never issued.
pub open spec fn unobserved_findings(got: Result<MutationResult, SeamError>) -> Seq<Seq<char>> {
    match code_of(got) {
        Some(ErrorCode::NotObserved) => Seq::empty(),
        Some(ErrorCode::StaleVersion) => seq![
            "foreign token reported stale-version; this backend never issued that token, so it must be not-observed \u{2014} stale-version is reserved for tokens this backend issued and the target outlived"@,
        ],
        Some(code) => seq![
            "unobserved token refused with `"@ + code.spelling() + "`, expected `not-observed`"@,
        ],
        None => seq!["write guarded by a never-issued token succeeded"@],
    }
}

/// Judge a write guarded by a token that was never issued.
pub fn judge_unobserved(got: &Result<MutationResult, SeamError>) -> (r: Cx)
    ensures
        r@ == failed(unobserved_findings(*got)),
{
    let mut cx = Cx::new();
    match code(got) {
        Some(ErrorCode::NotObserved) => {},
        Some(ErrorCode::StaleVersion) => cx.fail_str(
            "foreign token reported stale-version; this backend never issued that token, so it must be not-observed \u{2014} stale-version is reserved for tokens this backend issued and the target outlived",
        ),
        Some(c) => cx.fail(
            cat3("unobserved token refused with `", c.as_str(), "`, expected `not-observed`"),
        ),
        None => cx.fail_str("write guarded by a never-issued token succeeded"),
    }
    assert(cx@ =~= failed(unobserved_findings(*got)));
    cx
}

/// The guard no backend can have issued.
pub open spec fn foreign_guard() -> Option<WriteGuard> {
    Some(WriteGuard::ReplaceAtVersion(VersionToken(u64::MAX)))
}

/// A token this provider never issued is `not-observed`, which is not
/// `stale-version`.
pub fn unobserved_guarded_write<F: FileSystem>(fs: &F) -> (r: Cx)
    ensures
        plays(fs, &Hostless, FsCase::UnobservedGuardedWrite, r@),
{
    play(fs, &Hostless, FsCase::UnobservedGuardedWrite)
}

/// What is found of the refused second create and the read after it.
pub open spec fn create_findings(
    second: Result<MutationResult, SeamError>,
    after: Result<ReadWindow, SeamError>,
) -> Seq<Seq<char>> {
    refusal_findings(
        code_of(second),
        ErrorCode::NotFound,
        "CreateIfAbsent on existing target failed with `"@,
        "`, expected `not-found`"@,
        "CreateIfAbsent succeeded on an existing target; guard ignored"@,
    ) + contents_findings(
        after,
        encode_utf8("first"@),
        "refused CreateIfAbsent mutated the file to "@,
        "read after refused CreateIfAbsent failed: "@,
    )
}

/// Creating succeeds on a fresh path and is refused on an existing one, whose
/// contents survive.
pub fn create_if_absent<F: FileSystem>(fs: &F) -> (r: Cx)
    ensures
        plays(fs, &Hostless, FsCase::CreateIfAbsent, r@),
{
    play(fs, &Hostless, FsCase::CreateIfAbsent)
}

/// What is found of the read after an unguarded edit that applied.
pub open spec fn applied_edit_findings(read: Result<ReadWindow, SeamError>) -> Seq<Seq<char>> {
    contents_findings(
        read,
        encode_utf8("alpha gamma"@),
        "edit replaced wrong bytes: contents are "@,
        "read after edit failed: "@,
    )
}

/// Edits check the version first, need exactly one match, and replace exactly
/// the matched bytes.
pub fn guarded_edit_stale<F: FileSystem>(fs: &F) -> (r: Cx)
    ensures
        guard_case_run(fs, GuardCase::GuardedEdit, r@),
{
    let (run, call) = GuardRun::begin(GuardCase::GuardedEdit);
    drive(fs, run, call)
}

// ---------------------------------------------------------------------------
// Atomicity
// ---------------------------------------------------------------------------

/// Whether a lower-case name looks like the leftover of an atomic write.
pub open spec fn is_debris(lower: Seq<char>) -> bool {
    ||| occurs(lower, ".tmp"@)
    ||| ends_in(lower, ".temp"@)
    ||| ends_in(lower, "~"@)
    ||| occurs(lower, ".bak"@)
    ||| occurs_at(lower, ".tmp"@, 0)
    ||| ends_in(lower, ".swp"@)
}

/// Whether a lower-case name looks like the leftover of an atomic write.
pub fn debris_name(lower: &str) -> (r: bool)
    ensures
        r == is_debris(lower@),
{
    contains(lower, ".tmp") || ends_with(lower, ".temp") || ends_with(lower, "~") || contains(
        lower,
        ".bak",
    ) || starts_with(lower, ".tmp") || ends_with(lower, ".swp")
}

/// Does `name` look like atomic-write debris (a temporary or backup sibling),
/// in any letter case?
pub fn looks_like_debris(name: &str) -> (r: bool)
    ensures
        r == is_debris(lower_text(name@)),
{
    debris_name(lowered(name).as_str())
}

/// The names in a listing that look like debris, in order.
pub open spec fn debris_names(entries: Seq<Entry>) -> Seq<Seq<char>>
    decreases entries.len(),
{
    if entries.len() == 0 {
        Seq::empty()
    } else {
        let before = debris_names(entries.drop_last());
        if is_debris(lower_text(entries.last().name@)) {
            before.push(entries.last().name@)
        } else {
            before
        }
    }
}

/// The names in a listing that look like debris, in order.
pub fn debris_in(entries: &Vec<Entry>) -> (r: Vec<String>)
    ensures
        texts(r@) == debris_names(entries@),
{
    let mut out: Vec<String> = Vec::new();
    assert(texts(out@) =~= debris_names(entries@.take(0)));
    for i in 0..entries.len()
        invariant
            texts(out@) == debris_names(entries@.take(i as int)),
    {
        let ghost before = out@;
        assert(entries@.take(i + 1).drop_last() =~= entries@.take(i as int));
        if looks_like_debris(entries[i].name.as_str()) {
            out.push(entries[i].name.clone());
            assert(texts(out@) =~= texts(before).push(entries@[i as int].name@));
        }
    }
    assert(entries@.take(entries@.len() as int) =~= entries@);
    out
}

/// The leftovers the provider shows in `dir`.
pub open spec fn debris_view(debris: Option<Vec<String>>) -> Option<Seq<Seq<char>>> {
    match debris {
        Some(names) => Some(texts(names@)),
        None => None,
    }
}

/// What is found of the leftovers in a directory.
pub open spec fn debris_findings(debris: Option<Seq<Seq<char>>>, pre: Seq<char>) -> Seq<Seq<char>> {
    match debris {
        Some(names) => finding(names.len() > 0, pre + debug_texts(names)),
        None => Seq::empty(),
    }
}

/// Judge the leftovers in a directory.
pub fn judge_debris(cx: &mut Cx, debris: &Option<Vec<String>>, pre: &str)
    ensures
        final(cx)@ == old(cx)@.and_failed(debris_findings(debris_view(*debris), pre@)),
{
    if let Some(names) = debris {
        if names.len() > 0 {
            cx.fail(cat(pre, quoted_list(names).as_str()));
        }
    }
    assert(cx@ =~= old(cx)@.and_failed(debris_findings(debris_view(*debris), pre@)));
}

/// Writing leaves nothing beside the file.
pub fn atomic_write_no_debris<F: FileSystem>(fs: &F) -> (r: Cx)
    ensures
        plays(fs, &Hostless, FsCase::AtomicWriteNoDebris, r@),
{
    play(fs, &Hostless, FsCase::AtomicWriteNoDebris)
}

/// Editing leaves nothing beside the file.
pub fn atomic_edit_no_debris<F: FileSystem>(fs: &F) -> (r: Cx)
    ensures
        plays(fs, &Hostless, FsCase::AtomicEditNoDebris, r@),
{
    play(fs, &Hostless, FsCase::AtomicEditNoDebris)
}

/// What is found of the two handles of an overwritten file.
pub open spec fn overwrite_findings(
    first: Target,
    second: Target,
    old_read: Result<ReadWindow, SeamError>,
    new_read: Result<ReadWindow, SeamError>,
) -> Seq<Seq<char>> {
    finding(
        first.key != second.key,
        "overwrite produced a new identity ("@ + decimal_text(first.key.0 as nat) + " -> "@
            + decimal_text(second.key.0 as nat) + "); write must replace in place"@,
    ) + contents_findings(
        old_read,
        encode_utf8("v2"@),
        "read via original handle returned "@,
        "read via original handle failed: "@,
    ) + contents_findings(
        new_read,
        encode_utf8("v2"@),
        "read via new handle returned "@,
        "read via new handle failed: "@,
    )
}

/// Judge the two handles of an overwritten file.
pub fn judge_overwrite(
    first: &Target,
    second: &Target,
    old_read: &Result<ReadWindow, SeamError>,
    new_read: &Result<ReadWindow, SeamError>,
) -> (r: Cx)
    ensures
        r@ == failed(overwrite_findings(*first, *second, *old_read, *new_read)),
{
    let mut cx = Cx::new();
    if first.key != second.key {
        cx.fail(
            cat5(
                "overwrite produced a new identity (",
                decimal(first.key.0).as_str(),
                " -> ",
                decimal(second.key.0).as_str(),
                "); write must replace in place",
            ),
        );
    }
    judge_contents(
        &mut cx,
        old_read,
        "v2".as_bytes(),
        "read via original handle returned ",
        "read via original handle failed: ",
    );
    judge_contents(
        &mut cx,
        new_read,
        "v2".as_bytes(),
        "read via new handle returned ",
        "read via new handle failed: ",
    );
    assert(cx@ =~= failed(overwrite_findings(*first, *second, *old_read, *new_read)));
    cx
}

/// Overwriting keeps the identity, and every handle reads the new contents.
pub fn overwrite_in_place<F: FileSystem>(fs: &F) -> (r: Cx)
    ensures
        plays(fs, &Hostless, FsCase::OverwriteInPlace, r@),
{
    play(fs, &Hostless, FsCase::OverwriteInPlace)
}

// ---------------------------------------------------------------------------
// Opaque identity
// ---------------------------------------------------------------------------

/// Four spellings of one file.
pub const SPELLINGS: [&'static str; 4] = [
    "conf/identity.txt",
    "./conf/identity.txt",
    "conf/./identity.txt",
    "conf//identity.txt",
];

/// The failures among the first `n` resolutions.
pub open spec fn spelling_failures(answers: Seq<Result<Target, SeamError>>, n: int) -> Seq<Seq<char>>
    decreases n,
{
    if n <= 0 {
        Seq::empty()
    } else {
        spelling_failures(answers, n - 1) + match answers[n - 1] {
            Ok(_) => Seq::empty(),
            Err(e) => seq![
                "resolve of `"@ + SPELLINGS@[n - 1]@ + "` (same file, different spelling) failed: "@
                    + e@.shown(),
            ],
        }
    }
}

/// The position of the first spelling that resolved, among the first `n`.
pub open spec fn first_resolved(answers: Seq<Result<Target, SeamError>>, n: int) -> Option<int>
    decreases n,
{
    if n <= 0 {
        None
    } else {
        match first_resolved(answers, n - 1) {
            Some(i) => Some(i),
            None => if answers[n - 1] is Ok {
                Some(n - 1)
            } else {
                None
            },
        }
    }
}

/// The disagreements among the first `n` resolutions: every spelling that
/// resolved must have the key of the first that did.
pub open spec fn spelling_splits(answers: Seq<Result<Target, SeamError>>, n: int) -> Seq<Seq<char>>
    decreases n,
{
    if n <= 0 {
        Seq::empty()
    } else {
        spelling_splits(answers, n - 1) + match (answers[n - 1], first_resolved(answers, n - 1)) {
            (Ok(t), Some(i)) => finding(
                t.key != answers[i]->Ok_0.key,
                "`"@ + SPELLINGS@[n - 1]@ + "` resolved to "@ + decimal_text(t.key.0 as nat)
                    + " but `"@ + SPELLINGS@[0]@ + "` resolved to "@ + decimal_text(
                    answers[i]->Ok_0.key.0 as nat,
                )
                    + "; the same file under a different spelling must share one key"@,
            ),
            _ => Seq::empty(),
        }
    }
}

/// The answers to the four spellings, which come after those to the fixture.
pub open spec fn spelled(replies: Seq<FsReply>) -> Seq<Result<Target, SeamError>> {
    Seq::new(4, |i: int| replies[i + 2]->Resolved_0)
}

/// Judge the answers to the four spellings.
pub fn judge_spellings(replies: &Vec<FsReply>) -> (r: Cx)
    requires
        replies@.len() >= 6,
        forall|k: int| 2 <= k < 6 ==> #[trigger] replies@[k] is Resolved,
    ensures
        r@ == failed(
            spelling_failures(spelled(replies@), 4) + spelling_splits(spelled(replies@), 4),
        ),
{
    let mut cx = Cx::new();
    let mut splits = Cx::new();
    let mut leader: Option<TargetKey> = None;
    let ghost answers = spelled(replies@);
    for i in 0..4usize
        invariant
            answers == spelled(replies@),
            replies@.len() >= 6,
            forall|k: int| 2 <= k < 6 ==> #[trigger] replies@[k] is Resolved,
            cx@ == failed(spelling_failures(answers, i as int)),
            splits@ == failed(spelling_splits(answers, i as int)),
            match (leader, first_resolved(answers, i as int)) {
                (Some(key), Some(k)) => 0 <= k < i && answers[k] is Ok && answers[k]->Ok_0.key == key,
                (None, None) => true,
                _ => false,
            },
    {
        let got = match &replies[i + 2] {
            FsReply::Resolved(got) => got,
            _ => {
                assert(false);
                return cx;
            },
        };
        assert(*got == answers[i as int]);
        match got {
            Ok(t) => match leader {
                Some(key) => {
                    if t.key != key {
                        splits.fail(
                            cat7(
                                "`",
                                SPELLINGS[i],
                                "` resolved to ",
                                decimal(t.key.0).as_str(),
                                " but `",
                                SPELLINGS[0],
                                cat3(
                                    "` resolved to ",
                                    decimal(key.0).as_str(),
                                    "; the same file under a different spelling must share one key",
                                ).as_str(),
                            ),
                        );
                    }
                },
                None => {
                    leader = Some(t.key);
                },
            },
            Err(e) => cx.fail(
                crate::text::cat4(
                    "resolve of `",
                    SPELLINGS[i],
                    "` (same file, different spelling) failed: ",
                    e.display().as_str(),
                ),
            ),
        }
        assert(cx@ =~= failed(spelling_failures(answers, i + 1)));
        assert(splits@ =~~= failed(spelling_splits(answers, i + 1)));
    }
    let found = splits.failures;
    for i in 0..found.len()
        invariant
            cx@ == failed(
                spelling_failures(answers, 4) + texts(found@).take(i as int),
            ),
    {
        let ghost was = cx@;
        cx.fail(found[i].clone());
        assert(cx@ =~= failed(spelling_failures(answers, 4) + texts(found@).take(i + 1)));
    }
    assert(texts(found@).take(found@.len() as int) =~= spelling_splits(answers, 4));
    cx
}

/// One file has one key, however it is spelled.
pub fn same_file_same_key<F: FileSystem>(fs: &F) -> (r: Cx)
    ensures
        plays(fs, &Hostless, FsCase::SameFileSameKey, r@),
{
    play(fs, &Hostless, FsCase::SameFileSameKey)
}

/// Whether a refusal says that the handle is not one of this provider's.
pub open spec fn disowned(code: ErrorCode) -> bool {
    code == ErrorCode::NotObserved || code == ErrorCode::NotFound
}

/// What is found of a read through a key that was never issued.
pub open spec fn forged_key_findings(got: Result<ReadWindow, SeamError>) -> Seq<Seq<char>> {
    match code_of(got) {
        Some(code) => finding(
            !disowned(code),
            "read via forged key failed with `"@ + code.spelling()
                + "`; expected not-observed or not-found"@,
        ),
        None => seq![
            "read via a forged TargetKey returned contents; the key was never issued by this provider \u{2014} identity must be validated, not trusted"@,
        ],
    }
}

/// Judge a read through a key that was never issued.
pub fn judge_forged_key(cx: &mut Cx, got: &Result<ReadWindow, SeamError>)
    ensures
        final(cx)@ == old(cx)@.and_failed(forged_key_findings(*got)),
{
    match code(got) {
        Some(c) => {
            if c != ErrorCode::NotObserved && c != ErrorCode::NotFound {
                cx.fail(
                    cat3(
                        "read via forged key failed with `",
                        c.as_str(),
                        "`; expected not-observed or not-found",
                    ),
                );
            }
        },
        None => cx.fail_str(
            "read via a forged TargetKey returned contents; the key was never issued by this provider \u{2014} identity must be validated, not trusted",
        ),
    }
    assert(cx@ =~= old(cx)@.and_failed(forged_key_findings(*got)));
}

/// What is found of a read through a real key wearing another file's display.
pub open spec fn spoofed_findings(got: Result<ReadWindow, SeamError>) -> Seq<Seq<char>> {
    match got {
        Ok(w) => if w.contents@ == encode_utf8("real"@) {
            Seq::empty()
        } else if w.contents@ == encode_utf8("other"@) {
            seq![
                "read via a real key with a spoofed display returned the *displayed* file's contents; display is for humans, never an address"@,
            ]
        } else {
            seq![
                "read via spoofed display returned unexpected "@ + debug_text(
                    lossy_text(w.contents@),
                ),
            ]
        },
        Err(e) => finding(
            !disowned(e.code),
            "read via spoofed display failed: "@ + e@.shown(),
        ),
    }
}

/// Judge a read through a real key wearing another file's display.
pub fn judge_spoofed(cx: &mut Cx, got: &Result<ReadWindow, SeamError>)
    ensures
        final(cx)@ == old(cx)@.and_failed(spoofed_findings(*got)),
{
    match got {
        Ok(w) => {
            if same_bytes(w.contents.as_slice(), "real".as_bytes()) {
            } else if same_bytes(w.contents.as_slice(), "other".as_bytes()) {
                cx.fail_str(
                    "read via a real key with a spoofed display returned the *displayed* file's contents; display is for humans, never an address",
                );
            } else {
                cx.fail(
                    cat(
                        "read via spoofed display returned unexpected ",
                        quoted(utf8_lossy(w.contents.as_slice()).as_str()).as_str(),
                    ),
                );
            }
        },
        Err(e) => {
            if e.code != ErrorCode::NotObserved && e.code != ErrorCode::NotFound {
                cx.fail(cat("read via spoofed display failed: ", e.display().as_str()));
            }
        },
    }
    assert(cx@ =~= old(cx)@.and_failed(spoofed_findings(*got)));
}

/// Identity is validated, not trusted: a forged key is disowned, and a display
/// is never an address.
pub fn forged_target_refused<F: FileSystem>(fs: &F) -> (r: Cx)
    ensures
        plays(fs, &Hostless, FsCase::ForgedTargetRefused, r@),
{
    play(fs, &Hostless, FsCase::ForgedTargetRefused)
}

// ---------------------------------------------------------------------------
// Windowed reads
// ---------------------------------------------------------------------------

/// Three decimal digits of `n`, with leading zeros.
pub open spec fn padded(n: nat) -> Seq<char> {
    seq![digit_char(n / 100 % 10), digit_char(n / 10 % 10), digit_char(n % 10)]
}

/// The first `n` lines of the long fixture.
pub open spec fn long_lines(n: nat) -> Seq<char>
    decreases n,
{
    if n == 0 {
        Seq::empty()
    } else {
        long_lines((n - 1) as nat) + "line"@ + padded((n - 1) as nat) + "xx\n"@
    }
}

/// The first `n` lines of the short fixture.
pub open spec fn short_lines(n: nat) -> Seq<char>
    decreases n,
{
    if n == 0 {
        Seq::empty()
    } else {
        short_lines((n - 1) as nat) + "l"@ + decimal_text((n - 1) as nat) + "\n"@
    }
}

fn digit(d: u64) -> (c: char)
    requires
        d < 10,
    ensures
        c == digit_char(d as nat),
{
    let byte: u8 = 48 + d as u8;
    byte as char
}

pub(crate) fn long_fixture() -> (r: String)
    ensures
        r@ == long_lines(100),
{
    let mut out = String::new();
    for i in 0..100u64
        invariant
            out@ == long_lines(i as nat),
    {
        let ghost before = out@;
        let mut number = String::new();
        number.push(digit(i / 100 % 10));
        number.push(digit(i / 10 % 10));
        number.push(digit(i % 10));
        assert(number@ =~= padded(i as nat));
        out.append("line");
        out.append(number.as_str());
        out.append("xx\n");
        assert(out@ == before + "line"@ + padded(i as nat) + "xx\n"@);
    }
    out
}

pub(crate) fn short_fixture() -> (r: String)
    ensures
        r@ == short_lines(10),
{
    let mut out = String::new();
    for i in 0..10u64
        invariant
            out@ == short_lines(i as nat),
    {
        let ghost before = out@;
        let number = decimal(i);
        out.append("l");
        out.append(number.as_str());
        out.append("\n");
        assert(out@ == before + "l"@ + decimal_text(i as nat) + "\n"@);
    }
    out
}

/// What is found of a read capped below the file's size.
pub open spec fn capped_findings(got: Result<ReadWindow, SeamError>) -> Seq<Seq<char>> {
    match got {
        Ok(w) => finding(
            w.total_lines != 100,
            "total_lines = "@ + decimal_text(w.total_lines as nat)
                + " past the byte cap; the line total must stay exact (100)"@,
        ) + finding(
            !w.truncated,
            "read with contents capped below file size reported truncated = false"@,
        ) + finding(
            w.contents@.len() > 500,
            "window returned "@ + decimal_text(w.contents@.len()) + " bytes over the 500-byte cap"@,
        ) + finding(
            w.contents@.len() == 0,
            "window returned zero bytes for a non-empty file"@,
        ),
        Err(e) => seq!["windowed read failed: "@ + e@.shown()],
    }
}

/// Judge a read capped below the file's size.
pub fn judge_capped(got: &Result<ReadWindow, SeamError>) -> (r: Cx)
    ensures
        r@ == failed(capped_findings(*got)),
{
    let mut cx = Cx::new();
    match got {
        Ok(w) => {
            if w.total_lines != 100 {
                cx.fail(
                    cat3(
                        "total_lines = ",
                        decimal(w.total_lines).as_str(),
                        " past the byte cap; the line total must stay exact (100)",
                    ),
                );
            }
            if !w.truncated {
                cx.fail_str("read with contents capped below file size reported truncated = false");
            }
            if w.contents.len() > 500 {
                cx.fail(
                    cat3(
                        "window returned ",
                        decimal(w.contents.len() as u64).as_str(),
                        " bytes over the 500-byte cap",
                    ),
                );
            }
            if w.contents.len() == 0 {
                cx.fail_str("window returned zero bytes for a non-empty file");
            }
        },
        Err(e) => cx.fail(cat("windowed read failed: ", e.display().as_str())),
    }
    assert(cx@ =~= failed(capped_findings(*got)));
    cx
}

/// The line total stays exact past the byte cap.
pub fn windowed_read_past_cap<F: FileSystem>(fs: &F) -> (r: Cx)
    ensures
        plays(fs, &Hostless, FsCase::WindowedReadPastCap, r@),
{
    play(fs, &Hostless, FsCase::WindowedReadPastCap)
}

/// What is found of an uncapped read of the short fixture.
pub open spec fn uncapped_findings(
    got: Result<ReadWindow, SeamError>,
    body: Seq<u8>,
) -> Seq<Seq<char>> {
    match got {
        Ok(w) => finding(
            w.contents@ != body,
            "read with no cap did not return the full file"@,
        ) + finding(
            w.total_lines != 10,
            "total_lines = "@ + decimal_text(w.total_lines as nat) + ", expected 10"@,
        ) + finding(w.truncated, "full read reported truncated = true"@),
        Err(e) => seq!["uncapped read failed: "@ + e@.shown()],
    }
}

/// Judge an uncapped read of the short fixture.
pub fn judge_uncapped(got: &Result<ReadWindow, SeamError>, body: &[u8]) -> (r: Cx)
    ensures
        r@ == failed(uncapped_findings(*got, body@)),
{
    let mut cx = Cx::new();
    match got {
        Ok(w) => {
            if !same_bytes(w.contents.as_slice(), body) {
                cx.fail_str("read with no cap did not return the full file");
            }
            if w.total_lines != 10 {
                cx.fail(
                    cat3("total_lines = ", decimal(w.total_lines).as_str(), ", expected 10"),
                );
            }
            if w.truncated {
                cx.fail_str("full read reported truncated = true");
            }
        },
        Err(e) => cx.fail(cat("uncapped read failed: ", e.display().as_str())),
    }
    assert(cx@ =~= failed(uncapped_findings(*got, body@)));
    cx
}

/// Without a cap the whole file comes back.
pub fn windowed_read_no_cap<F: FileSystem>(fs: &F) -> (r: Cx)
    ensures
        plays(fs, &Hostless, FsCase::WindowedReadNoCap, r@),
{
    play(fs, &Hostless, FsCase::WindowedReadNoCap)
}

// ---------------------------------------------------------------------------
// Error taxonomy
// ---------------------------------------------------------------------------

/// What is found of reading a missing file.
pub open spec fn missing_read_findings(got: Result<ReadWindow, SeamError>) -> Seq<Seq<char>> {
    refusal_findings(
        code_of(got),
        ErrorCode::NotFound,
        "reading a missing file failed with `"@,
        "`, expected `not-found`"@,
        "reading a missing file succeeded"@,
    )
}

/// What is found of a missing path that does not resolve.
pub open spec fn unresolved_findings(code: ErrorCode) -> Seq<Seq<char>> {
    finding(
        code != ErrorCode::NotFound,
        "resolving a missing path failed with `"@ + code.spelling() + "`, expected `not-found`"@,
    )
}

/// A missing file is `not-found`, at resolving or at reading.
pub fn read_missing_is_not_found<F: FileSystem>(fs: &F) -> (r: Cx)
    ensures
        plays(fs, &Hostless, FsCase::ReadMissingIsNotFound, r@),
{
    play(fs, &Hostless, FsCase::ReadMissingIsNotFound)
}

/// Listing a file is `not-a-directory`.
pub fn list_file_is_not_a_directory<F: FileSystem>(fs: &F) -> (r: Cx)
    ensures
        plays(fs, &Hostless, FsCase::ListFileIsNotADirectory, r@),
{
    play(fs, &Hostless, FsCase::ListFileIsNotADirectory)
}

/// Bytes that are not UTF-8.
pub open spec fn binary_fixture() -> Seq<u8> {
    seq![0xffu8, 0xfeu8, 0x00u8, 0x80u8, 0x41u8]
}

/// What is found of reading bytes that are not text.
pub open spec fn binary_findings(got: Result<ReadWindow, SeamError>) -> Seq<Seq<char>> {
    match got {
        Err(e) => finding(
            e.code != ErrorCode::NotText,
            "reading invalid-UTF-8 bytes failed with `"@ + e.code.spelling()
                + "`, expected `not-text`"@,
        ),
        Ok(w) => seq![
            "reading invalid-UTF-8 bytes succeeded ("@ + decimal_text(w.contents@.len())
                + " bytes); a text-read seam must classify non-text as not-text"@,
        ],
    }
}

/// Judge reading bytes that are not text.
pub fn judge_binary(got: &Result<ReadWindow, SeamError>) -> (r: Cx)
    ensures
        r@ == failed(binary_findings(*got)),
{
    let mut cx = Cx::new();
    match got {
        Err(e) => {
            if e.code != ErrorCode::NotText {
                cx.fail(
                    cat3(
                        "reading invalid-UTF-8 bytes failed with `",
                        e.code.as_str(),
                        "`, expected `not-text`",
                    ),
                );
            }
        },
        Ok(w) => cx.fail(
            cat3(
                "reading invalid-UTF-8 bytes succeeded (",
                decimal(w.contents.len() as u64).as_str(),
                " bytes); a text-read seam must classify non-text as not-text",
            ),
        ),
    }
    assert(cx@ =~= failed(binary_findings(*got)));
    cx
}

/// Bytes that are not text are `not-text` to a reader.
pub fn read_binary_is_not_text<F: FileSystem>(fs: &F) -> (r: Cx)
    ensures
        plays(fs, &Hostless, FsCase::ReadBinaryIsNotText, r@),
{
    play(fs, &Hostless, FsCase::ReadBinaryIsNotText)
}

/// Reading a directory is `not-a-regular-file`.
pub fn read_directory_is_not_a_regular_file<F: FileSystem>(fs: &F) -> (r: Cx)
    ensures
        plays(fs, &Hostless, FsCase::ReadDirectoryIsNotARegularFile, r@),
{
    play(fs, &Hostless, FsCase::ReadDirectoryIsNotARegularFile)
}

/// What is found of reading a file the process may not read.
pub open spec fn denied_findings(got: Result<ReadWindow, SeamError>) -> Seq<Seq<char>> {
    match code_of(got) {
        Some(ErrorCode::PermissionDenied) => Seq::empty(),
        Some(ErrorCode::SandboxDenied) => seq![
            "an OS permission refusal was reported as sandbox-denied; the two must stay distinct \u{2014} sandbox-denied is reserved for the provider's own policy refusals"@,
        ],
        Some(code) => seq![
            "reading an unreadable file failed with `"@ + code.spelling()
                + "`, expected `permission-denied`"@,
        ],
        None => seq!["provider read a file the OS denies to this process"@],
    }
}

/// Judge reading a file the process may not read.
pub fn judge_denied(got: &Result<ReadWindow, SeamError>) -> (r: Cx)
    ensures
        r@ == failed(denied_findings(*got)),
{
    let mut cx = Cx::new();
    match code(got) {
        Some(ErrorCode::PermissionDenied) => {},
        Some(ErrorCode::SandboxDenied) => cx.fail_str(
            "an OS permission refusal was reported as sandbox-denied; the two must stay distinct \u{2014} sandbox-denied is reserved for the provider's own policy refusals",
        ),
        Some(c) => cx.fail(
            cat3(
                "reading an unreadable file failed with `",
                c.as_str(),
                "`, expected `permission-denied`",
            ),
        ),
        None => cx.fail_str("provider read a file the OS denies to this process"),
    }
    assert(cx@ =~= failed(denied_findings(*got)));
    cx
}

/// Why the permission fixture cannot be built.
pub open spec fn no_round_trip() -> Seq<char> {
    "provider display does not round-trip through resolve; cannot build an OS permission fixture"@
}

/// An OS refusal is `permission-denied`, never the provider's own policy code.
pub fn permission_denied_vs_sandbox_denied<F: FileSystem, H: Host>(fs: &F, host: &H) -> (r: Cx)
    ensures
        plays(fs, host, FsCase::PermissionDeniedVsSandboxDenied, r@),
{
    play(fs, host, FsCase::PermissionDeniedVsSandboxDenied)
}

// ---------------------------------------------------------------------------
// The suite
// ---------------------------------------------------------------------------

/// Every filesystem conformance case, in suite order.
pub const CONFORMANCE_CASES: [&'static str; 17] = [
    "write_then_read",
    "stale_version_guard",
    "unobserved_guarded_write",
    "create_if_absent",
    "guarded_edit_stale",
    "atomic_write_no_debris",
    "atomic_edit_no_debris",
    "overwrite_in_place",
    "same_file_same_key",
    "forged_target_refused",
    "windowed_read_past_cap",
    "windowed_read_no_cap",
    "read_missing_is_not_found",
    "list_file_is_not_a_directory",
    "read_binary_is_not_text",
    "read_directory_is_not_a_regular_file",
    "permission_denied_vs_sandbox_denied",
];

/// `out` is an outcome of the named case against this provider. A name that
/// is no case is itself the one failure.
pub open spec fn case_run<F: FileSystem, H: Host>(
    fs: &F,
    host: &H,
    case: Seq<char>,
    out: CxView,
) -> bool {
    if case == "write_then_read"@ {
        plays(fs, &Hostless, FsCase::WriteThenRead, out)
    } else if case == "stale_version_guard"@ {
        guard_case_run(fs, GuardCase::StaleVersion, out)
    } else if case == "unobserved_guarded_write"@ {
        plays(fs, &Hostless, FsCase::UnobservedGuardedWrite, out)
    } else if case == "create_if_absent"@ {
        plays(fs, &Hostless, FsCase::CreateIfAbsent, out)
    } else if case == "guarded_edit_stale"@ {
        guard_case_run(fs, GuardCase::GuardedEdit, out)
    } else if case == "atomic_write_no_debris"@ {
        plays(fs, &Hostless, FsCase::AtomicWriteNoDebris, out)
    } else if case == "atomic_edit_no_debris"@ {
        plays(fs, &Hostless, FsCase::AtomicEditNoDebris, out)
    } else if case == "overwrite_in_place"@ {
        plays(fs, &Hostless, FsCase::OverwriteInPlace, out)
    } else if case == "same_file_same_key"@ {
        plays(fs, &Hostless, FsCase::SameFileSameKey, out)
    } else if case == "forged_target_refused"@ {
        plays(fs, &Hostless, FsCase::ForgedTargetRefused, out)
    } else if case == "windowed_read_past_cap"@ {
        plays(fs, &Hostless, FsCase::WindowedReadPastCap, out)
    } else if case == "windowed_read_no_cap"@ {
        plays(fs, &Hostless, FsCase::WindowedReadNoCap, out)
    } else if case == "read_missing_is_not_found"@ {
        plays(fs, &Hostless, FsCase::ReadMissingIsNotFound, out)
    } else if case == "list_file_is_not_a_directory"@ {
        plays(fs, &Hostless, FsCase::ListFileIsNotADirectory, out)
    } else if case == "read_binary_is_not_text"@ {
        plays(fs, &Hostless, FsCase::ReadBinaryIsNotText, out)
    } else if case == "read_directory_is_not_a_regular_file"@ {
        plays(fs, &Hostless, FsCase::ReadDirectoryIsNotARegularFile, out)
    } else if case == "permission_denied_vs_sandbox_denied"@ {
        plays(fs, host, FsCase::PermissionDeniedVsSandboxDenied, out)
    } else {
        out == failed(seq!["unknown conformance case"@])
    }
}

/// Run one case, keeping what it skipped beside what it found.
pub fn run_case<F: FileSystem, H: Host>(fs: &F, host: &H, case: &str) -> (r: Cx)
    ensures
        case_run(fs, host, case@, r@),
{
    if same(case, "write_then_read") {
        write_then_read(fs)
    } else if same(case, "stale_version_guard") {
        stale_version_guard(fs)
    } else if same(case, "unobserved_guarded_write") {
        unobserved_guarded_write(fs)
    } else if same(case, "create_if_absent") {
        create_if_absent(fs)
    } else if same(case, "guarded_edit_stale") {
        guarded_edit_stale(fs)
    } else if same(case, "atomic_write_no_debris") {
        atomic_write_no_debris(fs)
    } else if same(case, "atomic_edit_no_debris") {
        atomic_edit_no_debris(fs)
    } else if same(case, "overwrite_in_place") {
        overwrite_in_place(fs)
    } else if same(case, "same_file_same_key") {
        same_file_same_key(fs)
    } else if same(case, "forged_target_refused") {
        forged_target_refused(fs)
    } else if same(case, "windowed_read_past_cap") {
        windowed_read_past_cap(fs)
    } else if same(case, "windowed_read_no_cap") {
        windowed_read_no_cap(fs)
    } else if same(case, "read_missing_is_not_found") {
        read_missing_is_not_found(fs)
    } else if same(case, "list_file_is_not_a_directory") {
        list_file_is_not_a_directory(fs)
    } else if same(case, "read_binary_is_not_text") {
        read_binary_is_not_text(fs)
    } else if same(case, "read_directory_is_not_a_regular_file") {
        read_directory_is_not_a_regular_file(fs)
    } else if same(case, "permission_denied_vs_sandbox_denied") {
        permission_denied_vs_sandbox_denied(fs, host)
    } else {
        let mut cx = Cx::new();
        cx.fail_str("unknown conformance case");
        assert(cx@ =~= failed(seq!["unknown conformance case"@]));
        cx
    }
}

/// Run one filesystem conformance case by name.
///
/// Unknown case names yield a single violation naming the unknown case.
pub fn check_case<F: FileSystem, H: Host>(fs: &F, host: &H, case: &str) -> (r: Vec<Violation>)
    ensures
        exists|out: CxView| #[trigger]
            case_run(fs, host, case@, out) && violations_view(r@) == out.violations(case@),
{
    let cx = run_case(fs, host, case);
    cx.into_violations(case)
}

/// The violations of the first `n` cases, in suite order.
pub open spec fn suite_violations(outs: Seq<CxView>, n: int) -> Seq<ViolationView>
    decreases n,
{
    if n <= 0 {
        Seq::empty()
    } else {
        suite_violations(outs, n - 1) + outs[n - 1].violations(CONFORMANCE_CASES@[n - 1]@)
    }
}

/// Whether `outs` are outcomes of the first `n` cases against this provider.
pub open spec fn suite_run<F: FileSystem, H: Host>(
    fs: &F,
    host: &H,
    outs: Seq<CxView>,
    n: int,
) -> bool {
    &&& outs.len() == n
    &&& forall|i: int|
        0 <= i < n ==> case_run(fs, host, CONFORMANCE_CASES@[i]@, #[trigger] outs[i])
}

/// Run the whole filesystem suite. A provider is conformant when the returned
/// list is empty.
pub fn check_file_system<F: FileSystem, H: Host>(fs: &F, host: &H) -> (r: Vec<Violation>)
    ensures
        exists|outs: Seq<CxView>| #[trigger]
            suite_run(fs, host, outs, 17) && violations_view(r@) == suite_violations(outs, 17),
{
    let mut out: Vec<Violation> = Vec::new();
    let ghost mut outs: Seq<CxView> = Seq::empty();
    assert(violations_view(out@) =~= suite_violations(outs, 0));
    for i in 0..17usize
        invariant
            suite_run(fs, host, outs, i as int),
            violations_view(out@) == suite_violations(outs, i as int),
    {
        let cx = run_case(fs, host, CONFORMANCE_CASES[i]);
        let ghost before = outs;
        let ghost start = out@;
        proof {
            outs = outs.push(cx@);
            lemma_suite_prefix(before, outs, i as int);
        }
        let mut more = cx.into_violations(CONFORMANCE_CASES[i]);
        let ghost added = more@;
        out.append(&mut more);
        assert(violations_view(out@) =~= violations_view(start) + violations_view(added));
    }
    out
}

/// Earlier outcomes are untouched by later ones.
proof fn lemma_suite_prefix(a: Seq<CxView>, b: Seq<CxView>, n: int)
    requires
        0 <= n <= a.len() <= b.len(),
        forall|i: int| 0 <= i < a.len() ==> a[i] == b[i],
    ensures
        suite_violations(a, n) == suite_violations(b, n),
    decreases n,
{
    if n > 0 {
        lemma_suite_prefix(a, b, n - 1);
    }
}

} // verus!
