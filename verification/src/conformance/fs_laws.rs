//! When a filesystem provider passes: each case of the suite, in terms of the answers
//! it gave.

use vstd::prelude::*;
use vstd::utf8::encode_utf8;

use crate::conformance::fs_cases::{next, FsCase};
use crate::conformance::fs_run::{moved, FsCallView, FsReply, GuardCase, GuardStageView};
use crate::conformance::fs_suite::{
    binary_fixture, debris_names, is_debris, long_lines, short_lines, spelled, spelling_failures,
    spelling_splits, SPELLINGS,
};

use crate::conformance::stubs::{
    credentials_findings, settings_findings, StorageCallView, StorageReply, StorageStageView,
    PROBE_VALUE,
};
use crate::json::{Json, JsonView};
use crate::local_fs::bytes::line_total;
use crate::local_fs::content_laws::law_lines_add_up;
use crate::seam::credentials::CredentialKind;
use crate::seam::error::{ErrorCode, SeamError, SeamErrorView};
use crate::seam::fs::{Entry, MutationResult, ReadWindow, Target, TargetKey};
use crate::text::{ends_in, lower_text, occurs, occurs_at};

verus! {

/// Whether a call is the end of a case with nothing failed.
pub open spec fn passed(call: FsCallView) -> bool {
    call matches FsCallView::Done(out) && out.failures.len() == 0
}

/// Whether an answer is a refusal with this code.
pub open spec fn refused_with<T>(r: Result<T, SeamError>, code: ErrorCode) -> bool {
    r matches Err(e) && e.code == code
}

/// Whether a read gave back these bytes.
pub open spec fn read_back(r: Result<ReadWindow, SeamError>, bytes: Seq<u8>) -> bool {
    r matches Ok(w) && w.contents@ == bytes
}

/// The answers of a provider that takes a fixture.
pub open spec fn taken(t: Target, m: MutationResult) -> Seq<FsReply> {
    seq![FsReply::Resolved(Ok(t)), FsReply::Mutated(Ok(m))]
}

// ---------------------------------------------------------------------------
// Writes and guards
// ---------------------------------------------------------------------------

/// The bytes of `hello` hold no line feed.
proof fn lemma_hello_is_one_line()
    ensures
        line_total(encode_utf8("hello"@)) == 1,
{
    reveal_strlit("hello");
    let s = "hello"@;
    assert(vstd::utf8::is_ascii_chars(s));
    vstd::utf8::is_ascii_chars_encode_utf8(s);
    let bytes = encode_utf8(s);
    assert forall|i: int| 0 <= i < bytes.len() implies #[trigger] bytes[i] != 10 by {
        assert(s[i] as u8 == bytes[i]);
    }
    law_lines_add_up(bytes, bytes);
}

/// Write-then-read passes exactly where the read gives back what was written, as one
/// line and whole.
pub proof fn law_a_write_is_read_back(t: Target, m: MutationResult, got: Result<
    ReadWindow,
    SeamError,
>)
    ensures
        passed(next(FsCase::WriteThenRead, taken(t, m).push(FsReply::Read(got)))) <==> (
        got matches Ok(w) && w.contents@ == encode_utf8("hello"@) && w.total_lines == 1
            && !w.truncated),
{
    lemma_hello_is_one_line();
    let replies = taken(t, m).push(FsReply::Read(got));
    assert(replies[0] == FsReply::Resolved(Ok(t)));
    assert(replies[1] == FsReply::Mutated(Ok(m)));
    assert(replies[2] == FsReply::Read(got));
}

/// The unobserved-token case passes exactly where the write is refused as not observed.
pub proof fn law_a_foreign_token_is_told_from_a_stale_one(
    t: Target,
    m: MutationResult,
    got: Result<MutationResult, SeamError>,
)
    ensures
        passed(next(FsCase::UnobservedGuardedWrite, taken(t, m).push(FsReply::Mutated(got)))) <==> refused_with(
            got,
            ErrorCode::NotObserved,
        ),
{
    let replies = taken(t, m).push(FsReply::Mutated(got));
    assert(replies[0] == FsReply::Resolved(Ok(t)));
    assert(replies[1] == FsReply::Mutated(Ok(m)));
    assert(replies[2] == FsReply::Mutated(got));
}

/// The create case passes exactly where the second create is refused as not found and
/// the file still holds what the first wrote.
pub proof fn law_a_second_create_changes_nothing(
    t: Target,
    m: MutationResult,
    second: Result<MutationResult, SeamError>,
    after: Result<ReadWindow, SeamError>,
)
    ensures
        passed(
            next(
                FsCase::CreateIfAbsent,
                taken(t, m).push(FsReply::Mutated(second)).push(FsReply::Read(after)),
            ),
        ) <==> refused_with(second, ErrorCode::NotFound) && read_back(after, encode_utf8("first"@)),
{
    let replies = taken(t, m).push(FsReply::Mutated(second)).push(FsReply::Read(after));
    assert(replies[0] == FsReply::Resolved(Ok(t)));
    assert(replies[1] == FsReply::Mutated(Ok(m)));
    assert(replies[2] == FsReply::Mutated(second));
    assert(replies[3] == FsReply::Read(after));
}

/// The overwrite case passes exactly where both writes have one identity and both
/// handles read the second.
pub proof fn law_an_overwrite_keeps_the_identity(
    a: Target,
    b: Target,
    m: MutationResult,
    n: MutationResult,
    old_read: Result<ReadWindow, SeamError>,
    new_read: Result<ReadWindow, SeamError>,
)
    ensures
        passed(
            next(
                FsCase::OverwriteInPlace,
                taken(a, m) + taken(b, n) + seq![FsReply::Read(old_read), FsReply::Read(new_read)],
            ),
        ) <==> a.key == b.key && read_back(old_read, encode_utf8("v2"@)) && read_back(
            new_read,
            encode_utf8("v2"@),
        ),
{
    let replies = taken(a, m) + taken(b, n) + seq![FsReply::Read(old_read), FsReply::Read(new_read)];
    assert(replies[0] == FsReply::Resolved(Ok(a)));
    assert(replies[1] == FsReply::Mutated(Ok(m)));
    assert(replies[2] == FsReply::Resolved(Ok(b)));
    assert(replies[3] == FsReply::Mutated(Ok(n)));
    assert(replies[4] == FsReply::Read(old_read));
    assert(replies[5] == FsReply::Read(new_read));
}

/// The stale-version case passes exactly where the outlived token is refused as stale,
/// the refused write left the file as it was, and the current token is accepted.
pub proof fn law_a_stale_token_is_refused_and_a_fresh_one_taken(
    t: Target,
    stale: Result<MutationResult, SeamError>,
    after: Result<ReadWindow, SeamError>,
    current: MutationResult,
    fresh: Result<MutationResult, SeamError>,
)
    ensures
        ({
            let case = GuardCase::StaleVersion;
            let first = moved(case, GuardStageView::Presenting(t), FsReply::Mutated(stale)).0;
            let second = moved(case, first, FsReply::Read(after)).0;
            let third = moved(case, second, FsReply::Mutated(Ok(current))).0;
            passed(moved(case, third, FsReply::Mutated(fresh)).1) <==> refused_with(
                stale,
                ErrorCode::StaleVersion,
            ) && read_back(after, encode_utf8("v1b"@)) && fresh is Ok
        }),
{
}

/// The guarded-edit case passes exactly where the outlived token is refused as stale,
/// the unguarded edit applies and leaves the edited text, and an edit without a match
/// and one with several are refused as such.
pub proof fn law_a_guarded_edit_checks_the_version_first(
    t: Target,
    stale: Result<MutationResult, SeamError>,
    applied: MutationResult,
    read: Result<ReadWindow, SeamError>,
    none: Result<MutationResult, SeamError>,
    dup: Result<MutationResult, SeamError>,
)
    ensures
        ({
            let case = GuardCase::GuardedEdit;
            let first = moved(case, GuardStageView::Presenting(t), FsReply::Mutated(stale)).0;
            let second = moved(case, first, FsReply::Mutated(Ok(applied))).0;
            let third = moved(case, second, FsReply::Read(read)).0;
            let fourth = moved(case, third, FsReply::Mutated(none)).0;
            passed(moved(case, fourth, FsReply::Mutated(dup)).1) <==> refused_with(
                stale,
                ErrorCode::StaleVersion,
            ) && read_back(read, encode_utf8("alpha gamma"@)) && refused_with(
                none,
                ErrorCode::EditNotFound,
            ) && refused_with(dup, ErrorCode::AmbiguousEdit)
        }),
{
}

/// An unguarded edit that is refused fails the guarded-edit case, whatever follows.
pub proof fn law_an_unguarded_edit_must_apply(
    t: Target,
    stale: Result<MutationResult, SeamError>,
    e: SeamError,
    none: Result<MutationResult, SeamError>,
    dup: Result<MutationResult, SeamError>,
)
    ensures
        ({
            let case = GuardCase::GuardedEdit;
            let first = moved(case, GuardStageView::Presenting(t), FsReply::Mutated(stale)).0;
            let second = moved(case, first, FsReply::Mutated(Err(e))).0;
            let third = moved(case, second, FsReply::Mutated(none)).0;
            !passed(moved(case, third, FsReply::Mutated(dup)).1)
        }),
{
}

// ---------------------------------------------------------------------------
// Leftovers
// ---------------------------------------------------------------------------

/// A leftover is told by its name: whatever is in front, a temporary or backup ending
/// marks one, and a temporary mark anywhere; a name without a dot and a tilde is none.
pub proof fn law_leftovers_are_told_by_their_names(a: Seq<char>, b: Seq<char>)
    ensures
        is_debris(a + ".tmp"@ + b),
        is_debris(a + ".bak"@ + b),
        is_debris(a + ".temp"@),
        is_debris(a + ".swp"@),
        is_debris(a + "~"@),
        !a.contains('.') && !a.contains('~') ==> !is_debris(a),
{
    reveal_strlit(".tmp");
    reveal_strlit(".bak");
    reveal_strlit(".temp");
    reveal_strlit(".swp");
    reveal_strlit("~");
    lemma_within(a, ".tmp"@, b);
    lemma_within(a, ".bak"@, b);
    lemma_ending(a, ".temp"@);
    lemma_ending(a, ".swp"@);
    lemma_ending(a, "~"@);
    if !a.contains('.') && !a.contains('~') {
        lemma_without(a, ".tmp"@, '.');
        lemma_without(a, ".bak"@, '.');
        lemma_without(a, ".temp"@, '.');
        lemma_without(a, ".swp"@, '.');
        lemma_without(a, "~"@, '~');
    }
}

proof fn lemma_within(a: Seq<char>, s: Seq<char>, b: Seq<char>)
    ensures
        occurs(a + s + b, s),
{
    let all = a + s + b;
    assert(all.subrange(a.len() as int, (a.len() + s.len()) as int) =~= s);
    assert(occurs_at(all, s, a.len() as int));
}

proof fn lemma_ending(a: Seq<char>, s: Seq<char>)
    ensures
        ends_in(a + s, s),
{
    let all = a + s;
    assert(all.subrange(a.len() as int, all.len() as int) =~= s);
}

proof fn lemma_without(a: Seq<char>, s: Seq<char>, c: char)
    requires
        s.len() > 0,
        s[0] == c,
        !a.contains(c),
    ensures
        forall|at: int| !occurs_at(a, s, at),
{
    assert forall|at: int| !occurs_at(a, s, at) by {
        if occurs_at(a, s, at) {
            assert(a.subrange(at, at + s.len())[0] == a[at]);
            assert(a.contains(a[at]));
        }
    }
}

/// The leftovers of a listing are exactly the names that look like one, in any letter
/// case.
pub proof fn law_every_leftover_is_seen(entries: Seq<Entry>)
    ensures
        debris_names(entries).len() == 0 <==> forall|i: int|
            0 <= i < entries.len() ==> !is_debris(lower_text((#[trigger] entries[i]).name@)),
    decreases entries.len(),
{
    if entries.len() > 0 {
        let head = entries.drop_last();
        let n = entries.len() - 1;
        law_every_leftover_is_seen(head);
        assert forall|i: int| 0 <= i < n implies #[trigger] entries[i] == head[i] by {
        }
        if debris_names(entries).len() == 0 {
            assert forall|i: int| 0 <= i < entries.len() implies !is_debris(
                lower_text((#[trigger] entries[i]).name@),
            ) by {
                if i < n {
                    assert(!is_debris(lower_text(head[i].name@)));
                }
            }
        } else if forall|i: int|
            0 <= i < entries.len() ==> !is_debris(lower_text((#[trigger] entries[i]).name@)) {
            assert(!is_debris(lower_text(entries[n].name@)));
            assert forall|i: int| 0 <= i < head.len() implies !is_debris(
                lower_text((#[trigger] head[i]).name@),
            ) by {
                assert(!is_debris(lower_text(entries[i].name@)));
            }
        }
    }
}

/// Writing and editing pass exactly where the directory then shows no leftover.
pub proof fn law_a_mutation_leaves_nothing_beside_the_file(
    a: Target,
    b: Target,
    dir: Target,
    m: MutationResult,
    n: MutationResult,
    entries: Vec<Entry>,
)
    ensures
        ({
            let look = seq![FsReply::Resolved(Ok(dir)), FsReply::Listed(Ok(entries))];
            let clean = forall|i: int|
                0 <= i < entries@.len() ==> !is_debris(
                    lower_text((#[trigger] entries@[i]).name@),
                );
            &&& passed(next(FsCase::AtomicWriteNoDebris, taken(a, m) + taken(b, n) + look)) <==> clean
            &&& passed(
                next(FsCase::AtomicEditNoDebris, taken(a, m).push(FsReply::Mutated(Ok(n))) + look),
            ) <==> clean
        }),
{
    law_every_leftover_is_seen(entries@);
    let look = seq![FsReply::Resolved(Ok(dir)), FsReply::Listed(Ok(entries))];
    let first = taken(a, m) + taken(b, n) + look;
    assert(first[0] == FsReply::Resolved(Ok(a)));
    assert(first[1] == FsReply::Mutated(Ok(m)));
    assert(first[2] == FsReply::Resolved(Ok(b)));
    assert(first[3] == FsReply::Mutated(Ok(n)));
    assert(first[4] == FsReply::Resolved(Ok(dir)));
    assert(first[5] == FsReply::Listed(Ok(entries)));
    let second = taken(a, m).push(FsReply::Mutated(Ok(n))) + look;
    assert(second[0] == FsReply::Resolved(Ok(a)));
    assert(second[1] == FsReply::Mutated(Ok(m)));
    assert(second[2] == FsReply::Mutated(Ok(n)));
    assert(second[3] == FsReply::Resolved(Ok(dir)));
    assert(second[4] == FsReply::Listed(Ok(entries)));
}

// ---------------------------------------------------------------------------
// Identity
// ---------------------------------------------------------------------------

/// The identity case passes exactly where every spelling of the file resolved, all to
/// one key.
pub proof fn law_one_file_has_one_key(
    t: Target,
    m: MutationResult,
    a: Result<Target, SeamError>,
    b: Result<Target, SeamError>,
    c: Result<Target, SeamError>,
    d: Result<Target, SeamError>,
)
    ensures
        passed(
            next(
                FsCase::SameFileSameKey,
                taken(t, m) + seq![
                    FsReply::Resolved(a),
                    FsReply::Resolved(b),
                    FsReply::Resolved(c),
                    FsReply::Resolved(d),
                ],
            ),
        ) <==> a is Ok && b is Ok && c is Ok && d is Ok && a->Ok_0.key == b->Ok_0.key && a->Ok_0.key
            == c->Ok_0.key && a->Ok_0.key == d->Ok_0.key,
{
    let replies = taken(t, m) + seq![
        FsReply::Resolved(a),
        FsReply::Resolved(b),
        FsReply::Resolved(c),
        FsReply::Resolved(d),
    ];
    assert(replies[0] == FsReply::Resolved(Ok(t)));
    assert(replies[1] == FsReply::Mutated(Ok(m)));
    assert(replies[2] == FsReply::Resolved(a));
    assert(replies[3] == FsReply::Resolved(b));
    assert(replies[4] == FsReply::Resolved(c));
    assert(replies[5] == FsReply::Resolved(d));
    let answers = spelled(replies);
    assert(answers[0] == a && answers[1] == b && answers[2] == c && answers[3] == d);
    reveal_with_fuel(spelling_failures, 5);
    reveal_with_fuel(spelling_splits, 5);
    reveal_with_fuel(crate::conformance::fs_suite::first_resolved, 5);
}

/// The four spellings are of one file: they come to the same names.
pub proof fn law_the_spellings_are_of_one_file()
    ensures
        SPELLINGS@.len() == 4,
        SPELLINGS@[0]@ == "conf/identity.txt"@,
        SPELLINGS@[1]@ == "./conf/identity.txt"@,
        SPELLINGS@[2]@ == "conf/./identity.txt"@,
        SPELLINGS@[3]@ == "conf//identity.txt"@,
{
}

/// The forged-handle case passes exactly where a key that was never issued is
/// disowned, and a real key reads its own file, or is disowned, whatever display it
/// wears.
pub proof fn law_a_forged_handle_reads_nothing(
    t: Target,
    o: Target,
    m: MutationResult,
    n: MutationResult,
    forged: Result<ReadWindow, SeamError>,
    spoofed: Result<ReadWindow, SeamError>,
)
    requires
        o.key != t.key,
    ensures
        passed(
            next(
                FsCase::ForgedTargetRefused,
                taken(t, m).push(FsReply::Read(forged)) + taken(o, n) + seq![
                    FsReply::Read(spoofed),
                ],
            ),
        ) <==> (refused_with(forged, ErrorCode::NotObserved) || refused_with(
            forged,
            ErrorCode::NotFound,
        )) && (read_back(spoofed, encode_utf8("real"@)) || refused_with(
            spoofed,
            ErrorCode::NotObserved,
        ) || refused_with(spoofed, ErrorCode::NotFound)),
{
    let replies = taken(t, m).push(FsReply::Read(forged)) + taken(o, n) + seq![
        FsReply::Read(spoofed),
    ];
    assert(replies[0] == FsReply::Resolved(Ok(t)));
    assert(replies[1] == FsReply::Mutated(Ok(m)));
    assert(replies[2] == FsReply::Read(forged));
    assert(replies[3] == FsReply::Resolved(Ok(o)));
    assert(replies[4] == FsReply::Mutated(Ok(n)));
    assert(replies[5] == FsReply::Read(spoofed));
}

/// The forged read presents the display of the real file under a key of its own, and
/// the spoofed one the real key under another display.
pub proof fn law_what_a_forged_handle_looks_like(
    t: Target,
    o: Target,
    m: MutationResult,
    n: MutationResult,
    forged: Result<ReadWindow, SeamError>,
)
    requires
        o.key != t.key,
    ensures
        next(FsCase::ForgedTargetRefused, taken(t, m)) == (FsCallView::ReadAs {
            key: TargetKey(u64::MAX),
            display: t.display@,
        }),
        next(
            FsCase::ForgedTargetRefused,
            taken(t, m).push(FsReply::Read(forged)) + taken(o, n),
        ) == (FsCallView::ReadAs { key: t.key, display: o.display@ }),
{
    let first = taken(t, m);
    assert(first[0] == FsReply::Resolved(Ok(t)));
    assert(first[1] == FsReply::Mutated(Ok(m)));
    let replies = taken(t, m).push(FsReply::Read(forged)) + taken(o, n);
    assert(replies[0] == FsReply::Resolved(Ok(t)));
    assert(replies[1] == FsReply::Mutated(Ok(m)));
    assert(replies[2] == FsReply::Read(forged));
    assert(replies[3] == FsReply::Resolved(Ok(o)));
    assert(replies[4] == FsReply::Mutated(Ok(n)));
}

// ---------------------------------------------------------------------------
// Windows
// ---------------------------------------------------------------------------

/// The capped read passes exactly where the line total is that of the whole file, the
/// window says it was cut, and holds something within the cap.
pub proof fn law_a_capped_read_counts_every_line(
    t: Target,
    m: MutationResult,
    got: Result<ReadWindow, SeamError>,
)
    ensures
        next(FsCase::WindowedReadPastCap, taken(t, m)) == FsCallView::Read(t, 500),
        passed(next(FsCase::WindowedReadPastCap, taken(t, m).push(FsReply::Read(got)))) <==> (
        got matches Ok(w) && w.total_lines == 100 && w.truncated && 0 < w.contents@.len() <= 500),
{
    let first = taken(t, m);
    assert(first[0] == FsReply::Resolved(Ok(t)));
    assert(first[1] == FsReply::Mutated(Ok(m)));
    let replies = taken(t, m).push(FsReply::Read(got));
    assert(replies[0] == FsReply::Resolved(Ok(t)));
    assert(replies[1] == FsReply::Mutated(Ok(m)));
    assert(replies[2] == FsReply::Read(got));
}

/// The uncapped read passes exactly where the whole file comes back, with its lines and
/// nothing cut.
pub proof fn law_an_uncapped_read_gives_the_whole_file(
    t: Target,
    m: MutationResult,
    got: Result<ReadWindow, SeamError>,
)
    ensures
        passed(next(FsCase::WindowedReadNoCap, taken(t, m).push(FsReply::Read(got)))) <==> (
        got matches Ok(w) && w.contents@ == encode_utf8(short_lines(10)) && w.total_lines == 10
            && !w.truncated),
{
    let replies = taken(t, m).push(FsReply::Read(got));
    assert(replies[0] == FsReply::Resolved(Ok(t)));
    assert(replies[1] == FsReply::Mutated(Ok(m)));
    assert(replies[2] == FsReply::Read(got));
}

/// The long fixture has a hundred lines of ten characters.
pub proof fn law_the_long_fixture_has_its_lines(n: nat)
    ensures
        long_lines(n).len() == 10 * n,
        forall|i: int|
            0 <= i < n ==> #[trigger] long_lines(n)[10 * i + 9] == '\n',
    decreases n,
{
    reveal_strlit("line");
    reveal_strlit("xx\n");
    if n > 0 {
        law_the_long_fixture_has_its_lines((n - 1) as nat);
        assert forall|i: int| 0 <= i < n implies #[trigger] long_lines(n)[10 * i + 9] == '\n' by {
            if i < n - 1 {
                assert(long_lines(n)[10 * i + 9] == long_lines((n - 1) as nat)[10 * i + 9]);
            }
        }
    }
}

// ---------------------------------------------------------------------------
// Refusals
// ---------------------------------------------------------------------------

/// The taxonomy cases pass exactly where the provider refuses with the one code of the
/// situation: a missing file, a file that is listed, bytes that are no text, a
/// directory that is read.
pub proof fn law_each_situation_has_its_code(
    t: Target,
    m: MutationResult,
    unnamed: SeamError,
    read: Result<ReadWindow, SeamError>,
    listed: Result<Vec<Entry>, SeamError>,
)
    ensures
        passed(next(FsCase::ReadMissingIsNotFound, seq![FsReply::Resolved(Err(unnamed))])) <==> unnamed.code
            == ErrorCode::NotFound,
        passed(
            next(FsCase::ReadMissingIsNotFound, seq![FsReply::Resolved(Ok(t)), FsReply::Read(read)]),
        ) <==> refused_with(read, ErrorCode::NotFound),
        passed(next(FsCase::ListFileIsNotADirectory, taken(t, m).push(FsReply::Listed(listed)))) <==> refused_with(
            listed,
            ErrorCode::NotADirectory,
        ),
        passed(next(FsCase::ReadBinaryIsNotText, taken(t, m).push(FsReply::Read(read)))) <==> refused_with(
            read,
            ErrorCode::NotText,
        ),
        passed(
            next(
                FsCase::ReadDirectoryIsNotARegularFile,
                seq![FsReply::Resolved(Ok(t)), FsReply::Read(read)],
            ),
        ) <==> refused_with(read, ErrorCode::NotARegularFile),
{
    let pair = seq![FsReply::Resolved(Ok(t)), FsReply::Read(read)];
    assert(pair[0] == FsReply::Resolved(Ok(t)));
    assert(pair[1] == FsReply::Read(read));
    let listing = taken(t, m).push(FsReply::Listed(listed));
    assert(listing[0] == FsReply::Resolved(Ok(t)));
    assert(listing[1] == FsReply::Mutated(Ok(m)));
    assert(listing[2] == FsReply::Listed(listed));
    let reading = taken(t, m).push(FsReply::Read(read));
    assert(reading[0] == FsReply::Resolved(Ok(t)));
    assert(reading[1] == FsReply::Mutated(Ok(m)));
    assert(reading[2] == FsReply::Read(read));
}

/// The binary fixture is no text, so a provider that reads it as text is wrong.
pub proof fn law_the_binary_fixture_is_no_text()
    ensures
        !vstd::utf8::valid_utf8(binary_fixture()),
{
    let bytes = binary_fixture();
    assert(bytes[0] == 0xff);
    assert(!vstd::utf8::valid_first_scalar(bytes));
}

/// The permission case passes, past its fixture, exactly where the refusal is the
/// system's own code, and the file is made readable again before it is judged.
pub proof fn law_a_system_refusal_is_told_from_a_policy(
    t: Target,
    again: Target,
    m: MutationResult,
    read: Result<ReadWindow, SeamError>,
    loose: Option<bool>,
)
    requires
        again.key == t.key,
    ensures
        ({
            let tight = taken(t, m).push(FsReply::Resolved(Ok(again))).push(
                FsReply::Moded(Some(true)),
            );
            &&& next(FsCase::PermissionDeniedVsSandboxDenied, tight) == FsCallView::Read(
                t,
                usize::MAX,
            )
            &&& next(FsCase::PermissionDeniedVsSandboxDenied, tight.push(FsReply::Read(read))) == (
            FsCallView::Chmod { path: t.display@, mode: 420 })
            &&& passed(
                next(
                    FsCase::PermissionDeniedVsSandboxDenied,
                    tight.push(FsReply::Read(read)).push(FsReply::Moded(loose)),
                ),
            ) <==> refused_with(read, ErrorCode::PermissionDenied)
        }),
{
    let tight = taken(t, m).push(FsReply::Resolved(Ok(again))).push(FsReply::Moded(Some(true)));
    let asked = tight.push(FsReply::Read(read));
    let all = asked.push(FsReply::Moded(loose));
    assert(tight[0] == FsReply::Resolved(Ok(t)) && asked[0] == tight[0] && all[0] == tight[0]);
    assert(tight[1] == FsReply::Mutated(Ok(m)) && asked[1] == tight[1] && all[1] == tight[1]);
    assert(tight[2] == FsReply::Resolved(Ok(again)) && asked[2] == tight[2] && all[2] == tight[2]);
    assert(tight[3] == FsReply::Moded(Some(true)) && asked[3] == tight[3] && all[3] == tight[3]);
    assert(asked[4] == FsReply::Read(read) && all[4] == asked[4]);
}

// ---------------------------------------------------------------------------
// Settings, storage, credentials
// ---------------------------------------------------------------------------

/// A descriptor passes exactly where it says a value is there if and only if one is,
/// and its summary does not show it.
pub proof fn law_a_descriptor_mirrors_resolution(
    value: Option<JsonView>,
    present: bool,
    summary: Seq<char>,
    e: SeamErrorView,
)
    ensures
        settings_findings(value, Ok(Some((present, summary)))).len() == 0 <==> (present <==> value is Some)
            && (value matches Some(v) ==> !occurs(summary, crate::json::json_text(v))),
        settings_findings(value, Ok(None)).len() == 0 <==> value is None,
        settings_findings(value, Err(e)).len() > 0,
{
}

/// A hub passes exactly where it reads back the value it was given, and nothing once it
/// dropped it, with every call answered.
pub proof fn law_a_hub_reads_its_own_writes(
    read: Result<Option<Json>, SeamError>,
    after: Result<Option<Json>, SeamError>,
)
    ensures
        ({
            let first = StorageStageView::Setting.moved(StorageReply::Stored(Ok(()))).0;
            let second = first.moved(StorageReply::Got(read)).0;
            let third = second.moved(StorageReply::Deleted(Ok(()))).0;
            third.moved(StorageReply::Got(after)).1 matches StorageCallView::Done(found) && (
            found.len() == 0 <==> (read matches Ok(Some(v)) && v@ == JsonView::Text(PROBE_VALUE@))
                && (after matches Ok(None)))
        }),
        StorageStageView::Setting.moved(StorageReply::Stored(Ok(()))).1 == StorageCallView::Get,
        StorageStageView::Getting.moved(StorageReply::Got(read)).1 == StorageCallView::Delete,
{
}

/// A failed write or a failed drop is a finding.
pub proof fn law_a_hub_must_answer(e: SeamError, read: Result<Option<Json>, SeamError>)
    ensures
        StorageStageView::Setting.moved(StorageReply::Stored(Err(e))).1 matches StorageCallView::Done(
            found,
        ) && found.len() > 0,
        StorageStageView::Getting.moved(StorageReply::Got(read)).0.moved(
            StorageReply::Deleted(Err(e)),
        ).1 matches StorageCallView::Done(found) && found.len() > 0,
{
}

/// A provider of credentials passes exactly where `kind` agrees with `resolve` on a
/// reference it does not know.
pub proof fn law_kind_must_agree_with_resolve(
    resolved: Result<bool, SeamErrorView>,
    kind: Result<Option<CredentialKind>, SeamErrorView>,
)
    ensures
        credentials_findings(resolved, kind).len() == 0 <==> match (resolved, kind) {
            (Ok(some), Ok(k)) => some || k is None,
            (Ok(_), Err(_)) => false,
            (Err(_), Ok(k)) => k is None,
            (Err(e), Err(k)) => k.code == e.code,
        },
{
}

} // verus!
