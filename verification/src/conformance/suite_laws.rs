//! What holds of running a suite: which names are cases, which case a name runs, and
//! what the violations of a run are.

use vstd::prelude::*;
use vstd::utf8::encode_utf8;

use crate::conformance::adapter_suite::{adapter_gate_failure, ADAPTER_CONFORMANCE_CASES};
use crate::conformance::executor_suite::{gate_failure, EXECUTOR_CONFORMANCE_CASES};
use crate::conformance::fs_cases::{next, FsCase};
use crate::conformance::fs_run::{FsCallView, FsReply, GuardCase};
use crate::conformance::fs_suite::{
    answers_on, case_run, guard_case_run, heard, plays, reads, suite_run, suite_violations, Host, Hostless,
    CONFORMANCE_CASES,
};
use crate::conformance::report::{failed, skipped, CxView, ViolationView};
use crate::seam::error::SeamError;
use crate::seam::fs::{
    Edit, Entry, FileSystem, MutationResult, ReadWindow, Target, WriteGuard,
};

verus! {

/// What is added to an outcome adds up: nothing that was found is lost, and a skip is
/// never a failure.
pub proof fn law_findings_add_up(cx: CxView, more: Seq<Seq<char>>, why: Seq<char>)
    ensures
        cx.and_failed(more).failures == cx.failures + more,
        cx.and_failed(more).skips == cx.skips,
        cx.and_skipped(why).failures == cx.failures,
        cx.and_skipped(why).skips == cx.skips.push(why),
        failed(more).failures == more,
        failed(more).skips.len() == 0,
        skipped(why).failures.len() == 0,
        skipped(why).skips == seq![why],
{
}

/// The whole suite is clean exactly where each of its cases is.
pub proof fn law_a_suite_is_clean_where_its_cases_are(outs: Seq<CxView>, n: int)
    requires
        0 <= n <= outs.len(),
    ensures
        suite_violations(outs, n).len() == 0 <==> forall|i: int|
            0 <= i < n ==> (#[trigger] outs[i]).failures.len() == 0,
    decreases n,
{
    if n > 0 {
        law_a_suite_is_clean_where_its_cases_are(outs, n - 1);
        let last = outs[n - 1];
        assert(last.violations(CONFORMANCE_CASES@[n - 1]@).len() == last.failures.len());
    }
}

/// Every failure of every case is among the violations of the suite, under the name of
/// its case.
pub proof fn law_a_suite_reports_every_failure(outs: Seq<CxView>, n: int, i: int, k: int)
    requires
        0 <= i < n <= outs.len(),
        n <= 17,
        0 <= k < outs[i].failures.len(),
    ensures
        suite_violations(outs, n).contains(
            ViolationView { case: CONFORMANCE_CASES@[i]@, detail: outs[i].failures[k] },
        ),
    decreases n,
{
    let v = ViolationView { case: CONFORMANCE_CASES@[i]@, detail: outs[i].failures[k] };
    let before = suite_violations(outs, n - 1);
    let last = outs[n - 1].violations(CONFORMANCE_CASES@[n - 1]@);
    let all = suite_violations(outs, n);
    assert(all == before + last);
    if i == n - 1 {
        assert(last[k] == v);
        assert(all[before.len() + k] == v);
    } else {
        law_a_suite_reports_every_failure(outs, n - 1, i, k);
        let j = choose|j: int| 0 <= j < before.len() && before[j] == v;
        assert(all[j] == v);
    }
}

/// A suite runs its cases in order, one outcome each.
pub proof fn law_a_suite_runs_every_case<F: FileSystem, H: Host>(
    fs: &F,
    host: &H,
    outs: Seq<CxView>,
    next: CxView,
)
    requires
        outs.len() < 17,
    ensures
        suite_run(fs, host, outs.push(next), outs.len() as int + 1) <==> suite_run(
            fs,
            host,
            outs,
            outs.len() as int,
        ) && case_run(fs, host, CONFORMANCE_CASES@[outs.len() as int]@, next),
{
    let n = outs.len() as int;
    let more = outs.push(next);
    if suite_run(fs, host, more, n + 1) {
        assert(case_run(fs, host, CONFORMANCE_CASES@[n]@, more[n]));
        assert forall|i: int| 0 <= i < n implies case_run(
            fs,
            host,
            CONFORMANCE_CASES@[i]@,
            #[trigger] outs[i],
        ) by {
            assert(case_run(fs, host, CONFORMANCE_CASES@[i]@, more[i]));
        }
    }
}

/// A case is stopped before it starts exactly where its name is none of the suite's or
/// its fixture could not be built; what stops it is one violation under that name.
pub proof fn law_only_known_and_built_cases_start(case: Seq<char>, built: bool)
    ensures
        gate_failure(case, built) is None <==> built && exists|i: int|
            0 <= i < 9 && (#[trigger] EXECUTOR_CONFORMANCE_CASES@[i])@ == case,
        gate_failure(case, built) matches Some(v) ==> v.case == case,
        adapter_gate_failure(case, built) is None <==> built && exists|i: int|
            0 <= i < 10 && (#[trigger] ADAPTER_CONFORMANCE_CASES@[i])@ == case,
        adapter_gate_failure(case, built) matches Some(v) ==> v.case == case,
{
}

/// No two filesystem cases share a name.
pub proof fn law_filesystem_cases_have_names_of_their_own()
    ensures
        forall|i: int, j: int|
            0 <= i < 17 && 0 <= j < 17 && i != j ==> (#[trigger] CONFORMANCE_CASES@[i])@ != (
            #[trigger] CONFORMANCE_CASES@[j])@,
{
    reveal_strlit("write_then_read");
    reveal_strlit("stale_version_guard");
    reveal_strlit("unobserved_guarded_write");
    reveal_strlit("create_if_absent");
    reveal_strlit("guarded_edit_stale");
    reveal_strlit("atomic_write_no_debris");
    reveal_strlit("atomic_edit_no_debris");
    reveal_strlit("overwrite_in_place");
    reveal_strlit("same_file_same_key");
    reveal_strlit("forged_target_refused");
    reveal_strlit("windowed_read_past_cap");
    reveal_strlit("windowed_read_no_cap");
    reveal_strlit("read_missing_is_not_found");
    reveal_strlit("list_file_is_not_a_directory");
    reveal_strlit("read_binary_is_not_text");
    reveal_strlit("read_directory_is_not_a_regular_file");
    reveal_strlit("permission_denied_vs_sandbox_denied");
    assert("write_then_read"@.len() == 15 && "write_then_read"@[0] == 'w');
    assert("stale_version_guard"@.len() == 19 && "stale_version_guard"@[0] == 's');
    assert("unobserved_guarded_write"@.len() == 24 && "unobserved_guarded_write"@[0] == 'u');
    assert("create_if_absent"@.len() == 16 && "create_if_absent"@[0] == 'c');
    assert("guarded_edit_stale"@.len() == 18 && "guarded_edit_stale"@[0] == 'g');
    assert("atomic_write_no_debris"@.len() == 22 && "atomic_write_no_debris"@[0] == 'a');
    assert("atomic_edit_no_debris"@.len() == 21 && "atomic_edit_no_debris"@[0] == 'a');
    assert("overwrite_in_place"@.len() == 18 && "overwrite_in_place"@[0] == 'o');
    assert("same_file_same_key"@.len() == 18 && "same_file_same_key"@[0] == 's');
    assert("forged_target_refused"@.len() == 21 && "forged_target_refused"@[0] == 'f');
    assert("windowed_read_past_cap"@.len() == 22 && "windowed_read_past_cap"@[0] == 'w');
    assert("windowed_read_no_cap"@.len() == 20 && "windowed_read_no_cap"@[0] == 'w');
    assert("read_missing_is_not_found"@.len() == 25 && "read_missing_is_not_found"@[0] == 'r');
    assert("list_file_is_not_a_directory"@.len() == 28 && "list_file_is_not_a_directory"@[0] == 'l');
    assert("read_binary_is_not_text"@.len() == 23 && "read_binary_is_not_text"@[0] == 'r');
    assert("read_directory_is_not_a_regular_file"@.len() == 36 && "read_directory_is_not_a_regular_file"@[0] == 'r');
    assert("permission_denied_vs_sandbox_denied"@.len() == 35 && "permission_denied_vs_sandbox_denied"@[0] == 'p');
    assert forall|i: int, j: int| 0 <= i < 17 && 0 <= j < 17 && i != j implies (
    #[trigger] CONFORMANCE_CASES@[i])@ != (#[trigger] CONFORMANCE_CASES@[j])@ by {
        let a = CONFORMANCE_CASES@[i]@;
        let b = CONFORMANCE_CASES@[j]@;
        assert(a.len() != b.len() || a[0] != b[0]);
    }
}

/// Each name runs the case it names, with the host's file modes where the case needs
/// them.
pub proof fn law_each_name_runs_its_own_case<F: FileSystem, H: Host>(
    fs: &F,
    host: &H,
    out: CxView,
)
    ensures
        case_run(fs, host, "write_then_read"@, out) <==> plays(fs, &Hostless, FsCase::WriteThenRead, out),
        case_run(fs, host, "stale_version_guard"@, out) <==> guard_case_run(fs, GuardCase::StaleVersion, out),
        case_run(fs, host, "unobserved_guarded_write"@, out) <==> plays(fs, &Hostless, FsCase::UnobservedGuardedWrite, out),
        case_run(fs, host, "create_if_absent"@, out) <==> plays(fs, &Hostless, FsCase::CreateIfAbsent, out),
        case_run(fs, host, "guarded_edit_stale"@, out) <==> guard_case_run(fs, GuardCase::GuardedEdit, out),
        case_run(fs, host, "atomic_write_no_debris"@, out) <==> plays(fs, &Hostless, FsCase::AtomicWriteNoDebris, out),
        case_run(fs, host, "atomic_edit_no_debris"@, out) <==> plays(fs, &Hostless, FsCase::AtomicEditNoDebris, out),
        case_run(fs, host, "overwrite_in_place"@, out) <==> plays(fs, &Hostless, FsCase::OverwriteInPlace, out),
        case_run(fs, host, "same_file_same_key"@, out) <==> plays(fs, &Hostless, FsCase::SameFileSameKey, out),
        case_run(fs, host, "forged_target_refused"@, out) <==> plays(fs, &Hostless, FsCase::ForgedTargetRefused, out),
        case_run(fs, host, "windowed_read_past_cap"@, out) <==> plays(fs, &Hostless, FsCase::WindowedReadPastCap, out),
        case_run(fs, host, "windowed_read_no_cap"@, out) <==> plays(fs, &Hostless, FsCase::WindowedReadNoCap, out),
        case_run(fs, host, "read_missing_is_not_found"@, out) <==> plays(fs, &Hostless, FsCase::ReadMissingIsNotFound, out),
        case_run(fs, host, "list_file_is_not_a_directory"@, out) <==> plays(fs, &Hostless, FsCase::ListFileIsNotADirectory, out),
        case_run(fs, host, "read_binary_is_not_text"@, out) <==> plays(fs, &Hostless, FsCase::ReadBinaryIsNotText, out),
        case_run(fs, host, "read_directory_is_not_a_regular_file"@, out) <==> plays(fs, &Hostless, FsCase::ReadDirectoryIsNotARegularFile, out),
        case_run(fs, host, "permission_denied_vs_sandbox_denied"@, out) <==> plays(fs, host, FsCase::PermissionDeniedVsSandboxDenied, out),
{
    reveal_strlit("write_then_read");
    reveal_strlit("stale_version_guard");
    reveal_strlit("unobserved_guarded_write");
    reveal_strlit("create_if_absent");
    reveal_strlit("guarded_edit_stale");
    reveal_strlit("atomic_write_no_debris");
    reveal_strlit("atomic_edit_no_debris");
    reveal_strlit("overwrite_in_place");
    reveal_strlit("same_file_same_key");
    reveal_strlit("forged_target_refused");
    reveal_strlit("windowed_read_past_cap");
    reveal_strlit("windowed_read_no_cap");
    reveal_strlit("read_missing_is_not_found");
    reveal_strlit("list_file_is_not_a_directory");
    reveal_strlit("read_binary_is_not_text");
    reveal_strlit("read_directory_is_not_a_regular_file");
    reveal_strlit("permission_denied_vs_sandbox_denied");
    assert("write_then_read"@.len() == 15 && "write_then_read"@[0] == 'w');
    assert("stale_version_guard"@.len() == 19 && "stale_version_guard"@[0] == 's');
    assert("unobserved_guarded_write"@.len() == 24 && "unobserved_guarded_write"@[0] == 'u');
    assert("create_if_absent"@.len() == 16 && "create_if_absent"@[0] == 'c');
    assert("guarded_edit_stale"@.len() == 18 && "guarded_edit_stale"@[0] == 'g');
    assert("atomic_write_no_debris"@.len() == 22 && "atomic_write_no_debris"@[0] == 'a');
    assert("atomic_edit_no_debris"@.len() == 21 && "atomic_edit_no_debris"@[0] == 'a');
    assert("overwrite_in_place"@.len() == 18 && "overwrite_in_place"@[0] == 'o');
    assert("same_file_same_key"@.len() == 18 && "same_file_same_key"@[0] == 's');
    assert("forged_target_refused"@.len() == 21 && "forged_target_refused"@[0] == 'f');
    assert("windowed_read_past_cap"@.len() == 22 && "windowed_read_past_cap"@[0] == 'w');
    assert("windowed_read_no_cap"@.len() == 20 && "windowed_read_no_cap"@[0] == 'w');
    assert("read_missing_is_not_found"@.len() == 25 && "read_missing_is_not_found"@[0] == 'r');
    assert("list_file_is_not_a_directory"@.len() == 28 && "list_file_is_not_a_directory"@[0] == 'l');
    assert("read_binary_is_not_text"@.len() == 23 && "read_binary_is_not_text"@[0] == 'r');
    assert("read_directory_is_not_a_regular_file"@.len() == 36 && "read_directory_is_not_a_regular_file"@[0] == 'r');
    assert("permission_denied_vs_sandbox_denied"@.len() == 35 && "permission_denied_vs_sandbox_denied"@[0] == 'p');
}

/// A name that is no case is one violation, and no call is made for it.
pub proof fn law_an_unknown_filesystem_case_fails<F: FileSystem, H: Host>(
    fs: &F,
    host: &H,
    case: Seq<char>,
    out: CxView,
)
    requires
        forall|i: int| 0 <= i < 17 ==> (#[trigger] CONFORMANCE_CASES@[i])@ != case,
        case_run(fs, host, case, out),
    ensures
        out.failures.len() == 1,
        out.skips.len() == 0,
{
    assert(CONFORMANCE_CASES@[0]@ == "write_then_read"@);
    assert(CONFORMANCE_CASES@[1]@ == "stale_version_guard"@);
    assert(CONFORMANCE_CASES@[2]@ == "unobserved_guarded_write"@);
    assert(CONFORMANCE_CASES@[3]@ == "create_if_absent"@);
    assert(CONFORMANCE_CASES@[4]@ == "guarded_edit_stale"@);
    assert(CONFORMANCE_CASES@[5]@ == "atomic_write_no_debris"@);
    assert(CONFORMANCE_CASES@[6]@ == "atomic_edit_no_debris"@);
    assert(CONFORMANCE_CASES@[7]@ == "overwrite_in_place"@);
    assert(CONFORMANCE_CASES@[8]@ == "same_file_same_key"@);
    assert(CONFORMANCE_CASES@[9]@ == "forged_target_refused"@);
    assert(CONFORMANCE_CASES@[10]@ == "windowed_read_past_cap"@);
    assert(CONFORMANCE_CASES@[11]@ == "windowed_read_no_cap"@);
    assert(CONFORMANCE_CASES@[12]@ == "read_missing_is_not_found"@);
    assert(CONFORMANCE_CASES@[13]@ == "list_file_is_not_a_directory"@);
    assert(CONFORMANCE_CASES@[14]@ == "read_binary_is_not_text"@);
    assert(CONFORMANCE_CASES@[15]@ == "read_directory_is_not_a_regular_file"@);
    assert(CONFORMANCE_CASES@[16]@ == "permission_denied_vs_sandbox_denied"@);
}

/// A conversation goes call by call: each answer is one to the call that follows the
/// answers before it.
pub proof fn law_each_call_follows_the_answers_before_it<F: FileSystem, H: Host>(
    fs: &F,
    host: &H,
    case: FsCase,
    replies: Seq<FsReply>,
    reply: FsReply,
)
    ensures
        heard(fs, host, case, replies.push(reply)) <==> heard(fs, host, case, replies)
            && answers_on(fs, host, next(case, replies), reply),
        heard(fs, host, case, Seq::empty()),
{
    let all = replies.push(reply);
    let n = replies.len() as int;
    assert(all.take(n) =~= replies);
    assert forall|i: int| 0 <= i < n implies #[trigger] all.take(i) == replies.take(i) by {
        assert(all.take(i) =~= replies.take(i));
    }
    if heard(fs, host, case, all) {
        assert(answers_on(fs, host, next(case, all.take(n)), all[n]));
        assert forall|i: int| 0 <= i < n implies answers_on(
            fs,
            host,
            next(case, replies.take(i)),
            #[trigger] replies[i],
        ) by {
            assert(answers_on(fs, host, next(case, all.take(i)), all[i]));
        }
    }
    if heard(fs, host, case, replies) && answers_on(fs, host, next(case, replies), reply) {
        assert forall|i: int| 0 <= i < all.len() implies answers_on(
            fs,
            host,
            next(case, all.take(i)),
            #[trigger] all[i],
        ) by {
            if i < n {
                assert(answers_on(fs, host, next(case, replies.take(i)), replies[i]));
                assert(all.take(i) == replies.take(i));
            }
        }
    }
}

/// What a case is judged by is what it heard: an outcome is one only behind answers
/// that lead to it.
pub proof fn law_an_outcome_is_what_was_heard<F: FileSystem, H: Host>(
    fs: &F,
    host: &H,
    case: FsCase,
    replies: Seq<FsReply>,
    out: CxView,
)
    requires
        heard(fs, host, case, replies),
        next(case, replies) == FsCallView::Done(out),
    ensures
        plays(fs, host, case, out),
{
}

/// A call is answered by the method it names, on the very arguments it carries.
pub proof fn law_a_call_is_answered_by_its_method<F: FileSystem, H: Host>(
    fs: &F,
    host: &H,
    t: Target,
    cap: usize,
    read: Result<ReadWindow, SeamError>,
    listed: Result<Vec<Entry>, SeamError>,
    contents: &[u8],
    guard: Option<WriteGuard>,
    mutated: Result<MutationResult, SeamError>,
    path: &str,
    resolved: Result<Target, SeamError>,
    mode: u32,
    moded: Option<bool>,
)
    ensures
        answers_on(fs, host, FsCallView::Read(t, cap), FsReply::Read(read)) <==> call_ensures(
            F::read,
            (fs, &t, cap),
            read,
        ),
        answers_on(fs, host, FsCallView::List(t), FsReply::Listed(listed)) <==> call_ensures(
            F::list,
            (fs, &t),
            listed,
        ),
        call_ensures(F::write, (fs, &t, contents, guard), mutated) ==> answers_on(
            fs,
            host,
            FsCallView::Write { target: t, contents: contents@, guard },
            FsReply::Mutated(mutated),
        ),
        answers_on(
            fs,
            host,
            FsCallView::Write { target: t, contents: contents@, guard },
            FsReply::Mutated(mutated),
        ) ==> exists|c: &[u8]|
            c@ == contents@ && #[trigger] call_ensures(F::write, (fs, &t, c, guard), mutated),
        call_ensures(F::resolve, (fs, path), resolved) ==> answers_on(
            fs,
            host,
            FsCallView::Resolve(path@),
            FsReply::Resolved(resolved),
        ),
        answers_on(fs, host, FsCallView::Resolve(path@), FsReply::Resolved(resolved)) ==> exists|
            p: &str,
        | p@ == path@ && #[trigger] call_ensures(F::resolve, (fs, p), resolved),
        answers_on(
            fs,
            host,
            FsCallView::Chmod { path: path@, mode },
            FsReply::Moded(moded),
        ) ==> exists|p: &str|
            p@ == path@ && #[trigger] call_ensures(H::chmod, (host, p, mode), moded),
        answers_on(
            fs,
            host,
            FsCallView::ReadAs { key: t.key, display: t.display@ },
            FsReply::Read(read),
        ) ==> exists|u: Target|
            u.key == t.key && u.display@ == t.display@ && #[trigger] call_ensures(
                F::read,
                (fs, &u, usize::MAX),
                read,
            ),
{
    if answers_on(
        fs,
        host,
        FsCallView::ReadAs { key: t.key, display: t.display@ },
        FsReply::Read(read),
    ) {
        let u = choose|u: Target|
            u.key == t.key && u.display@ == t.display@ && #[trigger] reads(
                fs,
                u,
                usize::MAX,
                read,
            );
        assert(call_ensures(F::read, (fs, &u, usize::MAX), read));
    }
}

/// An edit is answered by an edit of the very texts the call carries.
pub proof fn law_an_edit_carries_its_texts<F: FileSystem, H: Host>(
    fs: &F,
    host: &H,
    t: Target,
    find: Seq<char>,
    replace: Seq<char>,
    guard: Option<WriteGuard>,
    mutated: Result<MutationResult, SeamError>,
)
    ensures
        answers_on(
            fs,
            host,
            FsCallView::Edit { target: t, find, replace, guard },
            FsReply::Mutated(mutated),
        ) <==> exists|e: Edit|
            e.find@ == encode_utf8(find) && e.replace@ == encode_utf8(replace)
                && #[trigger] call_ensures(F::edit, (fs, &t, &e, guard), mutated),
{
}

/// A fixture that the provider will not write skips its case, and fails nothing.
pub proof fn law_a_refused_fixture_skips_its_case(
    case: FsCase,
    t: Target,
    e: SeamError,
    replies: Seq<FsReply>,
)
    requires
        case.first_fixture() is Some,
        replies == seq![FsReply::Resolved(Ok(t)), FsReply::Mutated(Err(e))],
    ensures
        next(case, replies) matches FsCallView::Done(out) && out.failures.len() == 0
            && out.skips.len() == 1,
{
    assert(replies[0] == FsReply::Resolved(Ok(t)));
    assert(replies[1] == FsReply::Mutated(Err(e)));
}

/// What a case asks for once its fixture stands, always of the target it resolved.
pub proof fn law_what_follows_the_fixture(t: Target, m: MutationResult, replies: Seq<FsReply>)
    requires
        replies == seq![FsReply::Resolved(Ok(t)), FsReply::Mutated(Ok(m))],
    ensures
        next(FsCase::WriteThenRead, replies) == FsCallView::Read(t, usize::MAX),
        next(FsCase::WindowedReadNoCap, replies) == FsCallView::Read(t, usize::MAX),
        next(FsCase::ReadBinaryIsNotText, replies) == FsCallView::Read(t, usize::MAX),
        next(FsCase::ListFileIsNotADirectory, replies) == FsCallView::List(t),
        next(FsCase::UnobservedGuardedWrite, replies) matches FsCallView::Write {
            target,
            guard: Some(WriteGuard::ReplaceAtVersion(_)),
            ..
        } && target == t,
        next(FsCase::CreateIfAbsent, replies) matches FsCallView::Write {
            target,
            contents,
            guard: Some(WriteGuard::CreateIfAbsent),
        } && target == t && contents != encode_utf8("first"@),
        next(FsCase::AtomicEditNoDebris, replies) == (FsCallView::Edit {
            target: t,
            find: "world"@,
            replace: "there"@,
            guard: None,
        }),
        next(FsCase::PermissionDeniedVsSandboxDenied, replies) == FsCallView::Resolve(t.display@),
{
    assert(replies[0] == FsReply::Resolved(Ok(t)));
    assert(replies[1] == FsReply::Mutated(Ok(m)));
    reveal_strlit("first");
    reveal_strlit("second");
    vstd::utf8::encode_utf8_decode_utf8("first"@);
    vstd::utf8::encode_utf8_decode_utf8("second"@);
    assert("first"@.len() != "second"@.len());
}

} // verus!
