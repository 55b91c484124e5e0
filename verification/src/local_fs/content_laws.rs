//! What is read, what is edited and what is written, byte by byte.

use vstd::prelude::*;
use vstd::utf8::{length_of_first_scalar, pop_first_scalar, valid_first_scalar, valid_utf8};

use crate::local_fs::bytes::{
    first_match, kept, lemma_cut_text, lemma_match_count_step, lemma_newline_count_concat,
    lemma_text_prefix, line_total, match_count, newline_count, text_prefix,
};
use crate::local_fs::laws::lemma_first_exists;
use crate::local_fs::mutate::{
    fits, played, ChangeView, MutationActionView, MutationEventView, MutationStageView, MutationView,
};
use crate::local_fs::provider::{edit_result, read_result, stamp_of, FileKind, LocalFsView};
use crate::local_fs::walk::PlaceView;
use crate::seam::error::ErrorCode;
use crate::seam::fs::VersionToken;
use crate::text::{occurs, occurs_at};

verus! {

// ---------------------------------------------------------------------------
// Edits
// ---------------------------------------------------------------------------

/// How often something occurs, told by where it occurs.
proof fn lemma_count(hay: Seq<u8>, needle: Seq<u8>)
    requires
        needle.len() > 0,
    ensures
        match_count(hay, needle) == 0 <==> forall|i: int| !occurs_at(hay, needle, i),
        match_count(hay, needle) > 1 <==> exists|i: int, j: int| #[trigger]
            occurs_at(hay, needle, i) && #[trigger] occurs_at(hay, needle, j) && i + needle.len()
                <= j,
{
    if occurs(hay, needle) {
        lemma_first_exists(hay, needle);
        let at = choose|at: int| first_match(hay, needle, at);
        lemma_match_count_step(hay, needle, at);
        let rest = hay.skip(at + needle.len());
        assert(occurs_at(hay, needle, at));
        if match_count(hay, needle) > 1 {
            assert(occurs(rest, needle));
            let k = choose|k: int| occurs_at(rest, needle, k);
            let j = at + needle.len() + k;
            assert(hay.subrange(j, j + needle.len()) =~= rest.subrange(k, k + needle.len()));
            assert(occurs_at(hay, needle, j));
        }
        if exists|i: int, j: int| #[trigger]
            occurs_at(hay, needle, i) && #[trigger] occurs_at(hay, needle, j) && i + needle.len()
                <= j {
            let (i, j) = choose|i: int, j: int| #[trigger]
                occurs_at(hay, needle, i) && #[trigger] occurs_at(hay, needle, j) && i
                    + needle.len() <= j;
            assert(at <= i) by {
                if i < at {
                    assert(!occurs_at(hay, needle, i));
                }
            }
            let k = j - at - needle.len();
            assert(rest.subrange(k, k + needle.len()) =~= hay.subrange(j, j + needle.len()));
            assert(occurs_at(rest, needle, k));
            assert(occurs(rest, needle));
            lemma_first_exists(rest, needle);
            let first = choose|at: int| first_match(rest, needle, at);
            lemma_match_count_step(rest, needle, first);
        }
    }
}

/// An edit applies exactly where its pattern stands in the text in one place: no
/// occurrence lies beyond the first. It is refused as not found where there is none,
/// and as ambiguous where two stand side by side.
pub proof fn law_an_edit_needs_one_place(
    display: Seq<char>,
    bytes: Seq<u8>,
    find: Seq<u8>,
    replace: Seq<u8>,
)
    requires
        valid_utf8(bytes),
        find.len() > 0,
    ensures
        edit_result(display, bytes, find, replace) is Ok <==> (exists|i: int|
            occurs_at(bytes, find, i)) && !(exists|i: int, j: int| #[trigger]
            occurs_at(bytes, find, i) && #[trigger] occurs_at(bytes, find, j) && i + find.len()
                <= j),
        (edit_result(display, bytes, find, replace) matches Err(e) && e.code
            == ErrorCode::EditNotFound) <==> forall|i: int| !occurs_at(bytes, find, i),
        (edit_result(display, bytes, find, replace) matches Err(e) && e.code
            == ErrorCode::AmbiguousEdit) <==> exists|i: int, j: int| #[trigger]
            occurs_at(bytes, find, i) && #[trigger] occurs_at(bytes, find, j) && i + find.len()
                <= j,
{
    lemma_count(bytes, find);
    if match_count(bytes, find) == 0 {
        if exists|i: int| occurs_at(bytes, find, i) {
            let i = choose|i: int| occurs_at(bytes, find, i);
            assert(!occurs_at(bytes, find, i));
        }
    }
}

/// What an edit leaves is the text with the first occurrence of the pattern replaced,
/// whole: what stood before and behind is kept as it was.
pub proof fn law_an_edit_replaces_the_first_occurrence(
    display: Seq<char>,
    bytes: Seq<u8>,
    find: Seq<u8>,
    replace: Seq<u8>,
    at: int,
)
    requires
        edit_result(display, bytes, find, replace) is Ok,
        occurs_at(bytes, find, at),
        forall|k: int| 0 <= k < at ==> !occurs_at(bytes, find, k),
    ensures
        edit_result(display, bytes, find, replace)->Ok_0 == bytes.take(at) + replace + bytes.skip(
            at + find.len(),
        ),
        edit_result(display, bytes, find, replace)->Ok_0.len() + find.len() == bytes.len()
            + replace.len(),
{
    assert(first_match(bytes, find, at));
    let chosen = choose|k: int| first_match(bytes, find, k);
    if chosen < at {
        assert(!occurs_at(bytes, find, chosen));
    } else if at < chosen {
        assert(!occurs_at(bytes, find, at));
    }
}

// ---------------------------------------------------------------------------
// Lines
// ---------------------------------------------------------------------------

/// Lines add up: a text that ends in a line feed and one behind it have the lines of
/// both; a text without a line feed is one line, or none if it is empty.
pub proof fn law_lines_add_up(a: Seq<u8>, b: Seq<u8>)
    ensures
        line_total(a.push(10) + b) == line_total(a.push(10)) + line_total(b),
        line_total(a.push(10)) == newline_count(a) + 1,
        line_total(Seq::<u8>::empty()) == 0,
        (forall|i: int| 0 <= i < a.len() ==> #[trigger] a[i] != 10) && a.len() > 0 ==> line_total(a)
            == 1,
{
    let head = a.push(10);
    lemma_newline_count_concat(head, b);
    assert(head.drop_last() =~= a);
    if b.len() == 0 {
        assert(head + b =~= head);
    } else {
        assert((head + b).last() == b.last());
    }
    if forall|i: int| 0 <= i < a.len() ==> #[trigger] a[i] != 10 {
        lemma_no_newlines(a);
    }
}

proof fn lemma_no_newlines(a: Seq<u8>)
    requires
        forall|i: int| 0 <= i < a.len() ==> #[trigger] a[i] != 10,
    ensures
        newline_count(a) == 0,
    decreases a.len(),
{
    if a.len() > 0 {
        assert(a[a.len() - 1] != 10);
        lemma_no_newlines(a.drop_last());
    }
}

/// The line total counts every line feed and no other byte.
pub proof fn law_only_line_feeds_end_lines(bytes: Seq<u8>)
    ensures
        newline_count(bytes) == bytes.filter(|b: u8| b == 10).len(),
    decreases bytes.len(),
{
    reveal(Seq::filter);
    if bytes.len() > 0 {
        law_only_line_feeds_end_lines(bytes.drop_last());
    }
}

// ---------------------------------------------------------------------------
// Reads
// ---------------------------------------------------------------------------

/// No longer beginning of the bytes is well-formed.
proof fn lemma_longest(bytes: Seq<u8>, n: int)
    requires
        0 <= n <= bytes.len(),
        valid_utf8(bytes.take(n)),
    ensures
        n <= text_prefix(bytes),
    decreases bytes.len(),
{
    if n > 0 {
        let head = bytes.take(n);
        let len = length_of_first_scalar(head);
        assert(head[0] == bytes[0]);
        assert(valid_first_scalar(head));
        assert(valid_first_scalar(bytes));
        assert(length_of_first_scalar(bytes) == len);
        let rest = pop_first_scalar(bytes);
        assert(rest.take(n - len) =~= pop_first_scalar(head));
        lemma_longest(rest, n - len);
    }
}

/// A read keeps all that it may: the whole file where it is within the cap, otherwise
/// the longest beginning of it within the cap that is text. Nothing is left out that
/// could be shown.
pub proof fn law_a_read_keeps_all_it_may(display: Seq<char>, file: Seq<u8>, cap: nat)
    ensures
        read_result(display, file, cap) matches Ok(w) ==> {
            &&& file.len() <= cap ==> w.contents == file
            &&& valid_utf8(file.take(cap as int)) && file.len() > cap ==> w.contents == file.take(
                cap as int,
            )
            &&& forall|n: int|
                w.contents.len() < n <= file.len() && n <= cap ==> !valid_utf8(
                    #[trigger] file.take(n),
                )
        },
{
    if let Ok(w) = read_result(display, file, cap) {
        let window = kept(file, cap);
        lemma_text_prefix(window);
        assert forall|n: int| w.contents.len() < n <= file.len() && n <= cap implies !valid_utf8(
            #[trigger] file.take(n),
        ) by {
            assert(file.take(n) =~= window.take(n));
            if valid_utf8(window.take(n)) {
                lemma_longest(window, n);
            }
        }
    }
}

/// A read fails exactly where the file is not text as far as it was looked at: with
/// one code, and never for its size.
pub proof fn law_only_what_is_not_text_fails_to_read(display: Seq<char>, file: Seq<u8>, cap: nat)
    ensures
        read_result(display, file, cap) matches Err(e) ==> e.code == ErrorCode::NotText
            && !valid_utf8(file),
        file.len() <= cap ==> (read_result(display, file, cap) is Ok <==> valid_utf8(file)),
{
    if valid_utf8(file) && file.len() > cap {
        lemma_cut_text(file, cap as int);
    }
}

// ---------------------------------------------------------------------------
// Writes
// ---------------------------------------------------------------------------

/// Whether these are the contents a change asks for: a write's own, or what the edit
/// makes of bytes that were read in the course of it.
pub open spec fn asked_for(
    m: MutationView,
    events: Seq<MutationEventView>,
    contents: Seq<u8>,
) -> bool {
    match m.change {
        ChangeView::Write(wanted) => contents == wanted,
        ChangeView::Edit { find, replace } => exists|i: int, bytes: Seq<u8>|
            0 <= i < events.len() && #[trigger] events[i] == #[trigger] read_event(bytes)
                && edit_result(m.target.display, bytes, find, replace) == Ok::<
                Seq<u8>,
                crate::seam::error::SeamErrorView,
            >(contents),
    }
}

/// The event of bytes that were read.
pub open spec fn read_event(bytes: Seq<u8>) -> MutationEventView {
    MutationEventView::Bytes(Ok(bytes))
}

/// What was asked for stays asked for as more comes in.
proof fn lemma_asked_for(m: MutationView, events: Seq<MutationEventView>, contents: Seq<u8>)
    requires
        events.len() > 0,
        asked_for(m, events.drop_last(), contents),
    ensures
        asked_for(m, events, contents),
{
    if let ChangeView::Edit { find, replace } = m.change {
        let head = events.drop_last();
        let (i, bytes) = choose|i: int, bytes: Seq<u8>|
            0 <= i < head.len() && #[trigger] head[i] == #[trigger] read_event(bytes)
                && edit_result(m.target.display, bytes, find, replace) == Ok::<
                Seq<u8>,
                crate::seam::error::SeamErrorView,
            >(contents);
        assert(events[i] == read_event(bytes));
    }
}

/// What is put in place of a file is what was asked for: all the bytes of a write, or
/// exactly what the edit makes of the bytes that were read for it.
pub proof fn law_what_is_written_is_what_was_asked_for(
    m: MutationView,
    fs: LocalFsView,
    events: Seq<MutationEventView>,
)
    requires
        m.stage is Looking,
        fits(m, fs, events),
    ensures
        match played(m, fs, events).action {
            MutationActionView::Replace { contents, .. } => asked_for(m, events, contents),
            _ => true,
        },
        match played(m, fs, events).stage {
            MutationStageView::Entering(contents) => asked_for(m, events, contents),
            MutationStageView::Reading => m.change is Edit,
            _ => true,
        },
    decreases events.len(),
{
    if events.len() > 0 {
        let head = events.drop_last();
        law_what_is_written_is_what_was_asked_for(m, fs, head);
        let before = played(m, fs, head);
        match before.stage {
            MutationStageView::Entering(contents) => {
                lemma_asked_for(m, events, contents);
            },
            MutationStageView::Reading => {
                if let MutationEventView::Bytes(Ok(bytes)) = events.last() {
                    assert(events[events.len() - 1] == read_event(bytes));
                }
            },
            _ => {},
        }
    }
}

/// Whether a walk of the mutation arrived at this path.
pub open spec fn arrived_at(events: Seq<MutationEventView>, path: Seq<u8>) -> bool {
    exists|i: int, place: PlaceView, kind: Option<FileKind>|
        0 <= i < events.len() && #[trigger] events[i] == #[trigger] walk_event(place, kind)
            && place.canonical == path
}

/// The event of a walk that arrived.
pub open spec fn walk_event(place: PlaceView, kind: Option<FileKind>) -> MutationEventView {
    MutationEventView::Walked(Ok((place, kind)))
}

/// Where a run of a mutation stands, and what it has spent.
spec fn spent(m: MutationView, fs: LocalFsView, events: Seq<MutationEventView>) -> bool {
    let at = played(m, fs, events);
    match at.stage {
        MutationStageView::Replacing { counter, token, path, .. } => at.fs == fs.begun() && counter
            == fs.next_version && token == VersionToken(stamp_of(fs.nonce, fs.next_version))
            && arrived_at(events, path),
        MutationStageView::Over => match at.action {
            MutationActionView::Done(Ok(token)) => token == VersionToken(
                stamp_of(fs.nonce, fs.next_version),
            ) && exists|path: Seq<u8>| #[trigger]
                arrived_at(events, path) && at.fs == fs.begun().landed(path, fs.next_version),
            _ => at.fs.versions == fs.versions && at.fs.issued == fs.issued && at.fs.nonce
                == fs.nonce,
        },
        _ => at.fs == fs,
    }
}

proof fn lemma_spent(m: MutationView, fs: LocalFsView, events: Seq<MutationEventView>)
    requires
        m.stage is Looking,
        fits(m, fs, events),
    ensures
        spent(m, fs, events),
    decreases events.len(),
{
    if events.len() > 0 {
        let head = events.drop_last();
        lemma_spent(m, fs, head);
        let before = played(m, fs, head);
        let n = events.len() - 1;
        match before.stage {
            MutationStageView::Entering(_) => {
                if let MutationEventView::Walked(Ok((place, kind))) = events.last() {
                    assert(events[n] == walk_event(place, kind));
                    assert(arrived_at(events, place.canonical));
                }
            },
            MutationStageView::Replacing { path, .. } => {
                let (i, place, kind) = choose|i: int, place: PlaceView, kind: Option<FileKind>|
                    0 <= i < head.len() && #[trigger] head[i] == #[trigger] walk_event(place, kind)
                        && place.canonical == path;
                assert(events[i] == walk_event(place, kind));
                assert(arrived_at(events, path));
            },
            _ => {},
        }
    }
}

/// A mutation that succeeds hands out the token of the number it spent, and that is
/// the current version of the path its walk arrived at; one that fails, for whatever
/// reason, changes no version and hands out no token.
pub proof fn law_a_success_is_recorded_and_a_failure_is_not(
    m: MutationView,
    fs: LocalFsView,
    events: Seq<MutationEventView>,
)
    requires
        m.stage is Looking,
        fits(m, fs, events),
        played(m, fs, events).stage is Over,
    ensures
        match played(m, fs, events).action {
            MutationActionView::Done(Ok(token)) => {
                &&& token == VersionToken(stamp_of(fs.nonce, fs.next_version))
                &&& exists|path: Seq<u8>| #[trigger]
                    arrived_at(events, path) && played(m, fs, events).fs.versions
                        == fs.versions.insert(path, fs.next_version) && played(
                        m,
                        fs,
                        events,
                    ).fs.issued == fs.issued.push(fs.next_version)
            },
            MutationActionView::Done(Err(_)) => {
                &&& played(m, fs, events).fs.versions == fs.versions
                &&& played(m, fs, events).fs.issued == fs.issued
            },
            _ => false,
        },
{
    lemma_spent(m, fs, events);
    lemma_over(m, fs, events);
    if let MutationActionView::Done(Ok(_)) = played(m, fs, events).action {
        let path = choose|path: Seq<u8>| #[trigger]
            arrived_at(events, path) && played(m, fs, events).fs == fs.begun().landed(
                path,
                fs.next_version,
            );
        assert(arrived_at(events, path));
    }
}

proof fn lemma_over(m: MutationView, fs: LocalFsView, events: Seq<MutationEventView>)
    requires
        m.stage is Looking,
        fits(m, fs, events),
        played(m, fs, events).stage is Over,
    ensures
        played(m, fs, events).action is Done,
{
    let head = events.drop_last();
    let before = played(m, fs, head);
    assert(events.len() > 0);
}

/// A directory is never written, and what is not there is never edited, whatever the
/// policy and the guard would say.
pub proof fn law_only_files_are_mutated(
    m: MutationView,
    fs: LocalFsView,
    place: PlaceView,
    kind: Option<FileKind>,
)
    requires
        m.stage is Looking,
    ensures
        ({
            let at = m.moved(fs, walk_event(place, kind));
            &&& m.change is Write && kind == Some(FileKind::Directory) ==> (
            at.action matches MutationActionView::Done(Err(e)) && e.code
                == ErrorCode::NotADirectory && at.fs == fs)
            &&& m.change is Edit && kind is None ==> (
            at.action matches MutationActionView::Done(Err(e)) && e.code == ErrorCode::NotFound
                && at.fs == fs)
        }),
{
}

/// Without a policy nobody is asked, and the guard alone decides: a mutation whose
/// guard holds goes on, one whose guard does not is over with the guard's refusal.
pub proof fn law_without_a_policy_the_guard_decides(
    m: MutationView,
    fs: LocalFsView,
    place: PlaceView,
    kind: Option<FileKind>,
)
    requires
        m.stage is Looking,
        fs.actor is None,
        !(m.change is Write && kind == Some(FileKind::Directory)),
        !(m.change is Edit && kind is None),
    ensures
        ({
            let at = m.moved(fs, walk_event(place, kind));
            match fs.guard_verdict(place.canonical, m.guard, kind is Some) {
                Ok(_) => !(at.stage is Over) && !(at.stage is Asking),
                Err(e) => at.action == MutationActionView::Done(Err(e)),
            }
        }),
{
}

} // verus!
