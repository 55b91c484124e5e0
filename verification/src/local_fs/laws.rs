//! What holds of the provider as a whole.

use vstd::prelude::*;
use vstd::utf8::valid_utf8;

use crate::local_fs::bytes::{
    first_match, kept, lemma_cut_text, lemma_text_prefix, line_total, match_count, text_prefix,
};
use crate::local_fs::provider::{
    by_name, edit_result, listed_with, read_result, stamp_of, LocalFsView,
};
use crate::seam::error::ErrorCode;
use crate::seam::fs::{EntryView, VersionToken, WriteGuard};
use crate::text::{lemma_less_asymmetric, lemma_not_less_transitive, occurs, text_less};

verus! {

// ---------------------------------------------------------------------------
// Freshness
// ---------------------------------------------------------------------------

/// The token a mutation hands out satisfies the next guarded mutation.
pub proof fn law_fresh_token_is_accepted(fs: LocalFsView, path: Seq<u8>, counter: u64, exists: bool)
    ensures
        ({
            let token = VersionToken(stamp_of(fs.nonce, counter));
            fs.landed(path, counter).guard_verdict(
                path,
                Some(WriteGuard::ReplaceAtVersion(token)),
                exists,
            ) is Ok
        }),
{
}

/// A token that was handed out is refused as stale once another mutation of
/// the same path landed under a different token.
pub proof fn law_outlived_token_is_stale(
    fs: LocalFsView,
    path: Seq<u8>,
    first: u64,
    second: u64,
    exists: bool,
)
    requires
        stamp_of(fs.nonce, first) != stamp_of(fs.nonce, second),
    ensures
        ({
            let token = VersionToken(stamp_of(fs.nonce, first));
            fs.landed(path, first).landed(path, second).guard_verdict(
                path,
                Some(WriteGuard::ReplaceAtVersion(token)),
                exists,
            ) matches Err(e) && e.code == ErrorCode::StaleVersion
        }),
{
    let after = fs.landed(path, first).landed(path, second);
    let n = fs.issued.len() as int;
    assert(after.issued[n] == first);
    assert(stamp_of(after.nonce, after.issued[n]) == stamp_of(fs.nonce, first));
}

/// A token this instance never handed out is refused as not observed, whether
/// or not the path was ever mutated here.
pub proof fn law_foreign_token_is_not_observed(
    fs: LocalFsView,
    path: Seq<u8>,
    token: VersionToken,
    exists: bool,
)
    requires
        fs.valid(),
        !fs.knows(token),
    ensures
        fs.guard_verdict(path, Some(WriteGuard::ReplaceAtVersion(token)), exists) matches Err(e)
            && e.code == ErrorCode::NotObserved,
{
    if fs.versions.contains_key(path) {
        assert(fs.issued.contains(fs.versions[path]));
        let i = choose|i: int| 0 <= i < fs.issued.len() && fs.issued[i] == fs.versions[path];
        assert(stamp_of(fs.nonce, fs.issued[i]) != token.0);
    }
}

/// A mutation of one path leaves the versions of every other path alone.
pub proof fn law_other_paths_keep_their_version(
    fs: LocalFsView,
    path: Seq<u8>,
    other: Seq<u8>,
    counter: u64,
)
    requires
        path != other,
    ensures
        fs.landed(path, counter).versions.contains_key(other) == fs.versions.contains_key(other),
        fs.versions.contains_key(other) ==> fs.landed(path, counter).versions[other]
            == fs.versions[other],
{
}

/// An unguarded mutation is unconditional, and a create is refused exactly
/// when something is there.
pub proof fn law_unguarded_and_create_guards(fs: LocalFsView, path: Seq<u8>, exists: bool)
    ensures
        fs.guard_verdict(path, None, exists) is Ok,
        fs.guard_verdict(path, Some(WriteGuard::CreateIfAbsent), exists) is Ok <==> !exists,
{
}

// ---------------------------------------------------------------------------
// Reads
// ---------------------------------------------------------------------------

/// A read never returns anything but text: what it returns is well-formed,
/// a prefix of the file, within the cap, with the exact line total of the
/// whole file.
pub proof fn law_reads_return_text(display: Seq<char>, file: Seq<u8>, cap: nat)
    ensures
        read_result(display, file, cap) matches Ok(w) ==> {
            &&& valid_utf8(w.contents)
            &&& w.contents.len() <= cap
            &&& w.contents.len() <= file.len()
            &&& w.contents == file.take(w.contents.len() as int)
            &&& w.total_lines == line_total(file)
            &&& w.truncated == (file.len() > cap)
        },
{
    let window = kept(file, cap);
    lemma_text_prefix(window);
    if valid_utf8(window) {
        assert(window =~= file.take(window.len() as int));
    } else {
        let p = text_prefix(window) as int;
        assert(window.take(p) =~= file.take(p));
    }
}

/// A text file always reads, under any cap: a cap that cuts a character in
/// two is not the file's fault.
pub proof fn law_text_files_always_read(display: Seq<char>, file: Seq<u8>, cap: nat)
    requires
        valid_utf8(file),
    ensures
        read_result(display, file, cap) is Ok,
{
    if file.len() > cap {
        lemma_cut_text(file, cap as int);
    }
}

/// A file that is not text fails `not-text` when the window covers it.
pub proof fn law_binary_files_are_not_text(display: Seq<char>, file: Seq<u8>, cap: nat)
    requires
        !valid_utf8(file),
        file.len() <= cap,
    ensures
        read_result(display, file, cap) matches Err(e) && e.code == ErrorCode::NotText,
{
}

/// What a read gives back of a write: text that was written is read whole.
pub proof fn law_read_gives_back_a_write(display: Seq<char>, written: Seq<u8>, cap: nat)
    requires
        valid_utf8(written),
        written.len() <= cap,
    ensures
        read_result(display, written, cap) matches Ok(w) && w.contents == written && !w.truncated,
{
}

// ---------------------------------------------------------------------------
// Edits
// ---------------------------------------------------------------------------

/// An edit that applies replaces exactly the matched bytes and keeps all
/// others.
pub proof fn law_edit_replaces_only_the_match(
    display: Seq<char>,
    bytes: Seq<u8>,
    find: Seq<u8>,
    replace: Seq<u8>,
)
    ensures
        edit_result(display, bytes, find, replace) matches Ok(next) ==> exists|
            before: Seq<u8>,
            after: Seq<u8>,
        |
            bytes == #[trigger] (before + find + after) && next == before + replace + after,
{
    if edit_result(display, bytes, find, replace) is Ok {
        assert(occurs(bytes, find));
        lemma_first_exists(bytes, find);
        let at = choose|at: int| first_match(bytes, find, at);
        let before = bytes.take(at);
        let after = bytes.skip(at + find.len());
        assert(bytes =~= before + find + after);
    }
}

/// Something that occurs has a first occurrence.
pub proof fn lemma_first_exists(hay: Seq<u8>, needle: Seq<u8>)
    requires
        occurs(hay, needle),
    ensures
        exists|at: int| first_match(hay, needle, at),
{
    let at = choose|at: int| crate::text::occurs_at(hay, needle, at);
    lemma_first_below(hay, needle, at);
}

proof fn lemma_first_below(hay: Seq<u8>, needle: Seq<u8>, at: int)
    requires
        crate::text::occurs_at(hay, needle, at),
    ensures
        exists|k: int| first_match(hay, needle, k),
    decreases at,
{
    if exists|k: int| 0 <= k < at && crate::text::occurs_at(hay, needle, k) {
        let k = choose|k: int| 0 <= k < at && crate::text::occurs_at(hay, needle, k);
        lemma_first_below(hay, needle, k);
    } else {
        assert(first_match(hay, needle, at));
    }
}

/// An edit applies exactly when the file is text and holds the pattern once;
/// otherwise the refusal says which obligation failed.
pub proof fn law_edit_needs_exactly_one_match(
    display: Seq<char>,
    bytes: Seq<u8>,
    find: Seq<u8>,
    replace: Seq<u8>,
)
    requires
        valid_utf8(bytes),
    ensures
        edit_result(display, bytes, find, replace) is Ok <==> match_count(bytes, find) == 1,
        match_count(bytes, find) == 0 <==> (edit_result(display, bytes, find, replace) matches Err(e)
            && e.code == ErrorCode::EditNotFound),
        match_count(bytes, find) > 1 <==> (edit_result(display, bytes, find, replace) matches Err(e)
            && e.code == ErrorCode::AmbiguousEdit),
{
}

// ---------------------------------------------------------------------------
// Listings
// ---------------------------------------------------------------------------

/// Whether the entries stand in order of name.
pub open spec fn in_name_order(entries: Seq<EntryView>) -> bool {
    forall|i: int, j: int|
        0 <= i < j < entries.len() ==> !text_less(
            (#[trigger] entries[j]).name,
            (#[trigger] entries[i]).name,
        )
}

proof fn lemma_listed_with(sorted: Seq<EntryView>, e: EntryView)
    requires
        in_name_order(sorted),
    ensures
        in_name_order(listed_with(sorted, e)),
        listed_with(sorted, e).to_multiset() == sorted.to_multiset().insert(e),
        listed_with(sorted, e).len() == sorted.len() + 1,
    decreases sorted.len(),
{
    broadcast use vstd::seq_lib::group_to_multiset_ensures;

    if sorted.len() == 0 || !text_less(e.name, sorted.last().name) {
        let out = sorted.push(e);
        assert forall|i: int, j: int| 0 <= i < j < out.len() implies !text_less(
            (#[trigger] out[j]).name,
            (#[trigger] out[i]).name,
        ) by {
            if j == sorted.len() && i < sorted.len() - 1 {
                assert(!text_less(sorted[sorted.len() - 1].name, sorted[i].name));
                lemma_not_less_transitive(sorted[i].name, sorted.last().name, e.name);
            }
        }
    } else {
        let last = sorted.last();
        let init = sorted.drop_last();
        lemma_listed_with(init, e);
        let inner = listed_with(init, e);
        let out = inner.push(last);
        lemma_less_asymmetric(e.name, last.name);
        assert forall|i: int| 0 <= i < inner.len() implies !text_less(
            last.name,
            (#[trigger] inner[i]).name,
        ) by {
            assert(inner.to_multiset().contains(inner[i])) by {
                assert(inner.contains(inner[i]));
            }
            let x = inner[i];
            assert(x == e || init.to_multiset().contains(x));
            if x != e {
                assert(init.contains(x));
                let k = choose|k: int| 0 <= k < init.len() && init[k] == x;
                assert(!text_less(sorted[sorted.len() - 1].name, sorted[k].name));
            }
        }
        assert(sorted =~= init.push(last));
        assert(out.to_multiset() =~= sorted.to_multiset().insert(e));
    }
}

/// A listing comes back in order of name and holds exactly the entries that
/// were there.
pub proof fn law_listing_is_sorted(entries: Seq<EntryView>)
    ensures
        in_name_order(by_name(entries)),
        by_name(entries).to_multiset() == entries.to_multiset(),
    decreases entries.len(),
{
    broadcast use vstd::seq_lib::group_to_multiset_ensures;

    if entries.len() > 0 {
        law_listing_is_sorted(entries.drop_last());
        lemma_listed_with(by_name(entries.drop_last()), entries.last());
        assert(entries =~= entries.drop_last().push(entries.last()));
    } else {
        assert(entries =~= by_name(entries));
    }
}

} // verus!
