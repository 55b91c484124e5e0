//! What a spelling comes to, and where a walk can lead: confinement, from the
//! spelling to the file.

use vstd::prelude::*;
use vstd::utf8::encode_utf8;

use crate::local_fs::bytes::fnv1a_hash;
use crate::local_fs::fault::{FaultClass, IoFaultView};
use crate::local_fs::path::{
    cancelled, canonical_path, child_path, is_absolute, is_here, is_plain, is_up,
    lemma_joined_head, lemma_normal_names_plain, lemma_pieces_slash_free, lemma_plain_names_kept,
    lemma_shown_names_normalize, lemma_split_joined, lemma_split_nonempty, normal_names, shown_names,
    split_path, tidied,
};
use crate::local_fs::provider::{stamp_of, LocalFsView};
use crate::local_fs::walk::{
    resolved, target_of, Missing, OpenWalkView, ResolutionView, ResolveActionView, WalkActionView,
    WalkPhase,
};
use crate::seam::error::ErrorCode;
use crate::seam::fs::VersionToken;
use crate::text::joined;

verus! {

// ---------------------------------------------------------------------------
// Spellings
// ---------------------------------------------------------------------------

/// Splitting a path loses nothing: the pieces hold no slash, and joined by slashes
/// they are the path.
pub proof fn law_splitting_loses_nothing(path: Seq<char>)
    ensures
        joined(split_path(path), "/"@) == path,
        forall|i: int|
            0 <= i < split_path(path).len() ==> !(#[trigger] split_path(path)[i]).contains('/'),
{
    lemma_pieces_slash_free(path);
    lemma_joined_pieces(path);
}

proof fn lemma_joined_pieces(path: Seq<char>)
    ensures
        joined(split_path(path), "/"@) == path,
    decreases path.len(),
{
    reveal_strlit("/");
    assert("/"@ =~= seq!['/']);
    if path.len() == 0 {
        assert(joined(split_path(path), "/"@) =~= path);
    } else {
        let head = path.drop_last();
        let before = split_path(head);
        let after = split_path(path);
        lemma_joined_pieces(head);
        lemma_split_nonempty(head);
        if path.last() == '/' {
            assert(after.drop_last() =~= before);
            assert(joined(after, "/"@) =~= path);
        } else {
            assert(after.drop_last() =~= before.drop_last());
            if before.len() == 1 {
                assert(joined(after, "/"@) =~= path);
            } else {
                assert(joined(after, "/"@) =~= joined(before, "/"@).push(path.last()));
                assert(joined(after, "/"@) =~= path);
            }
        }
    }
}

/// What pieces make of the names so far.
spec fn climbed(names: Option<Seq<Seq<char>>>, pieces: Seq<Seq<char>>) -> Option<Seq<Seq<char>>>
    decreases pieces.len(),
{
    if pieces.len() == 0 {
        names
    } else {
        match climbed(names, pieces.drop_last()) {
            None => None,
            Some(names) => if is_here(pieces.last()) {
                Some(names)
            } else if is_up(pieces.last()) {
                if names.len() == 0 {
                    None
                } else {
                    Some(names.drop_last())
                }
            } else {
                Some(names.push(pieces.last()))
            },
        }
    }
}

proof fn lemma_climbed(a: Seq<Seq<char>>, b: Seq<Seq<char>>)
    ensures
        cancelled(a + b) == climbed(cancelled(a), b),
    decreases b.len(),
{
    if b.len() == 0 {
        assert(a + b =~= a);
    } else {
        lemma_climbed(a, b.drop_last());
        assert((a + b).drop_last() =~= a + b.drop_last());
        assert((a + b).last() == b.last());
    }
}

/// A piece that names nothing changes nothing, wherever it stands; a name and the
/// climb behind it cancel; and once a spelling has climbed out, nothing brings it
/// back.
pub proof fn law_dots_cancel(a: Seq<Seq<char>>, b: Seq<Seq<char>>, name: Seq<char>)
    ensures
        cancelled(a + seq!["."@] + b) == cancelled(a + b),
        cancelled(a + seq![Seq::empty()] + b) == cancelled(a + b),
        is_plain(name) ==> cancelled(a + seq![name] + seq![".."@] + b) == cancelled(a + b),
        cancelled(a) is None ==> cancelled(a + b) is None,
        cancelled(a) matches Some(names) ==> (cancelled(a + seq![".."@]) is None <==> names.len()
            == 0),
{
    reveal_strlit(".");
    reveal_strlit("..");
    assert("."@.len() == 1 && ".."@.len() == 2);
    let none = Seq::<Seq<char>>::empty();
    let dot = a + seq!["."@];
    assert(dot.drop_last() =~= a);
    lemma_climbed(dot, b);
    lemma_climbed(a, b);
    let empty = a + seq![Seq::<char>::empty()];
    assert(empty.drop_last() =~= a);
    lemma_climbed(empty, b);
    let up = a + seq![".."@];
    assert(up.drop_last() =~= a);
    if is_plain(name) {
        let named = a + seq![name];
        let back = named + seq![".."@];
        assert(named.drop_last() =~= a);
        assert(back.drop_last() =~= named);
        lemma_climbed(back, b);
        assert(named.last() == name && back.last() == ".."@);
        if let Some(names) = cancelled(a) {
            assert(cancelled(named) == Some(names.push(name)));
            assert(names.push(name).drop_last() =~= names);
            assert(cancelled(back) == Some(names));
        } else {
            lemma_outside(b);
        }
    }
    if cancelled(a) is None {
        lemma_outside(b);
    }
}

proof fn lemma_outside(b: Seq<Seq<char>>)
    ensures
        climbed(None, b) is None,
    decreases b.len(),
{
    if b.len() > 0 {
        lemma_outside(b.drop_last());
    }
}

/// Names are kept: a spelling of plain names between slashes comes to exactly those
/// names, in order; an absolute one comes to none.
pub proof fn law_plain_spellings_are_kept(names: Seq<Seq<char>>, path: Seq<char>)
    requires
        names.len() > 0,
        forall|i: int| 0 <= i < names.len() ==> is_plain(#[trigger] names[i]),
    ensures
        normal_names(joined(names, "/"@)) == Some(names),
        is_absolute(path) ==> normal_names(path) is None,
        normal_names("/"@ + path) is None,
{
    lemma_shown_names_normalize(names);
    reveal_strlit("/");
    assert(("/"@ + path)[0] == '/');
}

// ---------------------------------------------------------------------------
// Paths
// ---------------------------------------------------------------------------

/// A path is reached name by name: descending further starts where the first names
/// lead, and one name adds a slash and its own bytes.
pub proof fn law_paths_descend_name_by_name(root: Seq<u8>, a: Seq<Seq<char>>, b: Seq<Seq<char>>)
    ensures
        canonical_path(root, a + b) == canonical_path(canonical_path(root, a), b),
        canonical_path(root, Seq::empty()) == root,
    decreases b.len(),
{
    if b.len() == 0 {
        assert(a + b =~= a);
    } else {
        law_paths_descend_name_by_name(root, a, b.drop_last());
        assert((a + b).drop_last() =~= a + b.drop_last());
        assert((a + b).last() == b.last());
    }
}

/// The path of an entry is its directory, a slash, and its name, byte for byte.
pub proof fn law_an_entry_stands_behind_its_directory(dir: Seq<u8>, name: Seq<char>)
    ensures
        ({
            let path = canonical_path(dir, seq![name]);
            let bytes = encode_utf8(name);
            &&& dir.len() > 0 && dir.last() != 47 ==> path.len() == dir.len() + 1 + bytes.len()
                && path.take(dir.len() as int) == dir && path[dir.len() as int] == 47 && path.skip(
                dir.len() as int + 1,
            ) == bytes
            &&& dir.len() > 0 && dir.last() == 47 ==> path.take(dir.len() as int) == dir
                && path.skip(dir.len() as int) == bytes
        }),
{
    let one = seq![name];
    assert(one.drop_last() =~= Seq::empty());
    let path = canonical_path(dir, one);
    let bytes = encode_utf8(name);
    assert(canonical_path(dir, one.drop_last()) == dir);
    assert(one.last() == name);
    assert(path == child_path(dir, bytes));
    assert(path.take(dir.len() as int) =~= dir);
    if dir.len() > 0 && dir.last() != 47 {
        assert(path.skip(dir.len() as int + 1) =~= bytes);
    } else {
        assert(path.skip(dir.len() as int) =~= bytes);
    }
}

/// A target is named by the path it was resolved to, and shown by its names: the
/// display of a resolved target resolves to the same target.
pub proof fn law_a_display_resolves_to_its_own_target(root: Seq<u8>, path: Seq<char>)
    requires
        normal_names(path) is Some,
    ensures
        ({
            let names = normal_names(path)->Some_0;
            let target = target_of(root, names);
            &&& normal_names(target.display) == Some(names)
            &&& target.key.0 == fnv1a_hash(canonical_path(root, names))
            &&& names.len() > 0 ==> target.display == joined(names, "/"@)
            &&& names.len() == 0 ==> target.display == "."@
        }),
{
    lemma_normal_names_plain(path);
    lemma_shown_names_normalize(normal_names(path)->Some_0);
}

/// The version of a file is found under the path it was mutated at: after a mutation
/// of a resolved target landed there, the target's current token is that mutation's.
pub proof fn law_a_landed_mutation_is_the_current_version(
    fs: LocalFsView,
    path: Seq<char>,
    counter: u64,
)
    requires
        normal_names(path) is Some,
        normal_names(path)->Some_0.len() > 0,
    ensures
        ({
            let names = normal_names(path)->Some_0;
            let at = canonical_path(fs.root, names);
            fs.landed(at, counter).token_of(target_of(fs.root, names)) == Some(
                VersionToken(stamp_of(fs.nonce, counter)),
            )
        }),
        ({
            let names = normal_names(path)->Some_0;
            !fs.versions.contains_key(canonical_path(fs.root, names)) ==> fs.token_of(
                target_of(fs.root, names),
            ) is None
        }),
{
    let names = normal_names(path)->Some_0;
    lemma_normal_names_plain(path);
    lemma_plain_names_kept(names);
    let shown = shown_names(names);
    assert forall|i: int| 0 <= i < names.len() implies !(#[trigger] names[i]).contains('/') by {
        assert(is_plain(names[i]));
    }
    lemma_split_joined(names);
    assert(is_plain(names[0]));
    assert(names[0].len() > 0) by {
        assert(names[0].len() == 0 ==> names[0] =~= Seq::<char>::empty());
    }
    lemma_joined_head(names);
    assert(names[0].contains(names[0][0]));
    assert(!is_absolute(shown));
    assert(tidied(split_path(shown)) == names);
    if shown == "."@ {
        reveal_strlit(".");
        let dot = "."@;
        let empty = Seq::<char>::empty();
        assert(dot.drop_last() =~= empty);
        assert(split_path(empty) == seq![empty]);
        assert(split_path(dot) =~= seq![dot]) by {
            assert(empty.push('.') =~= dot);
        }
        assert(names[0] == dot);
    }
}

// ---------------------------------------------------------------------------
// Resolving
// ---------------------------------------------------------------------------

/// Whether a hop lets a resolution succeed: it opened, or there is nothing there, or,
/// before the last hop, something that is no directory.
pub open spec fn passable(walk: ResolutionView, hop: Result<(), IoFaultView>) -> bool {
    match hop {
        Ok(_) => true,
        Err(f) => f.class == FaultClass::NotFound || f.class == FaultClass::NotADirectory && walk.at
            + 1 < walk.names.len(),
    }
}

/// A resolution asks for its names one by one, in order: directories on the way, then
/// anything. A hop that is neither opened nor absent ends it with a refusal: a link as
/// an escape, what the process may not open as denied.
pub proof fn law_a_resolution_asks_for_every_name(
    walk: ResolutionView,
    hop: Result<(), IoFaultView>,
)
    requires
        walk.wf(),
        forall|i: int| 0 <= i < walk.names.len() ==> !(#[trigger] walk.names[i]).contains('\0'),
    ensures
        walk.at + 1 < walk.names.len() ==> walk.request() == ResolveActionView::OpenDir(
            walk.names[walk.at as int],
        ),
        walk.at + 1 == walk.names.len() ==> walk.request() == ResolveActionView::OpenFinal(
            walk.names[walk.at as int],
        ),
        hop is Ok && walk.at + 1 < walk.names.len() ==> walk.answer(hop) == walk.after(hop).request()
            && walk.after(hop) == (ResolutionView { at: walk.at + 1, ..walk }),
        hop is Ok && walk.at + 1 == walk.names.len() ==> walk.answer(hop) is Done,
        !passable(walk, hop) ==> (walk.answer(hop) matches ResolveActionView::Done(Err(e)) && (
        hop->Err_0.class == FaultClass::Loop ==> e.code == ErrorCode::SandboxDenied) && (
        hop->Err_0.class == FaultClass::PermissionDenied ==> e.code
            == ErrorCode::PermissionDenied)),
        hop is Err && passable(walk, hop) ==> walk.answer(hop) == ResolveActionView::Done(
            Ok(target_of(walk.root, walk.names)),
        ),
{
}

/// A name that holds a NUL is refused where it stands; nothing is opened by it.
pub proof fn law_a_nul_is_never_opened(walk: ResolutionView)
    requires
        walk.wf(),
        walk.names[walk.at as int].contains('\0'),
    ensures
        walk.request() matches ResolveActionView::Done(Err(_)),
{
}

/// Whatever the hops report, a spelling that resolves never met a hop that could not
/// be passed: no link was followed, and no directory that may not be opened.
pub proof fn law_no_refused_hop_is_passed(
    action: ResolveActionView,
    walk: ResolutionView,
    hops: Seq<Result<(), IoFaultView>>,
    n: int,
)
    requires
        walk.wf(),
        action == walk.request(),
        0 <= n < hops.len(),
        walk.at + n < walk.names.len(),
        forall|k: int| 0 <= k < n ==> #[trigger] hops[k] is Ok,
        hops[n] matches Err(f) && (f.class == FaultClass::Loop || f.class
            == FaultClass::PermissionDenied || f.class == FaultClass::Other),
    ensures
        resolved(action, walk, hops) matches Some(Err(_)),
    decreases n,
{
    if !(action is Done) {
        let hop = hops[0];
        if n > 0 {
            assert(hops[0] is Ok);
            let next = walk.after(hop);
            let rest = hops.skip(1);
            assert forall|k: int| 0 <= k < n - 1 implies #[trigger] rest[k] is Ok by {
                assert(hops[k + 1] is Ok);
            }
            assert(rest[n - 1] == hops[n]);
            law_no_refused_hop_is_passed(walk.answer(hop), next, rest, n - 1);
        } else {
            assert(resolved(walk.answer(hop), walk.after(hop), hops.skip(1)) matches Some(Err(_)));
        }
    }
}

// ---------------------------------------------------------------------------
// Opening
// ---------------------------------------------------------------------------

/// A walk asks for its names one by one, in order, and never for anything else: each
/// directory on the way, or its making where that is wanted, then the file itself.
pub proof fn law_a_walk_asks_for_every_name(walk: OpenWalkView, hop: Result<(), IoFaultView>)
    requires
        walk.wf(),
        walk.phase == WalkPhase::Open || walk.phase == WalkPhase::File || walk.phase
            == WalkPhase::Make || walk.phase == WalkPhase::Reopen,
        forall|i: int| 0 <= i < walk.names.len() ==> !(#[trigger] walk.names[i]).contains('\0'),
    ensures
        walk.phase == WalkPhase::Open ==> walk.request() == WalkActionView::OpenDir(
            walk.names[walk.at as int],
        ),
        walk.phase == WalkPhase::File && !walk.to_parent ==> walk.request()
            == WalkActionView::OpenFile(walk.names.last()),
        walk.answer(hop) matches WalkActionView::OpenDir(name) ==> hop is Ok && walk.at + 2
            < walk.names.len() && name == walk.names[walk.at as int + 1],
        walk.answer(hop) matches WalkActionView::OpenFile(name) ==> hop is Ok && walk.at + 2
            == walk.names.len() && name == walk.names.last(),
        walk.answer(hop) matches WalkActionView::MakeDir(path) ==> walk.missing == Missing::Made
            && path == canonical_path(walk.root, walk.names.take(walk.at as int + 1)),
        walk.answer(hop) matches WalkActionView::ReopenDir(name) ==> walk.phase == WalkPhase::Make
            && name == walk.names[walk.at as int],
{
}

/// A walk only ever arrives at the path its names lead to, and at a file only with the
/// key of that path: a link, a failed open or a foreign handle never arrives.
pub proof fn law_a_walk_arrives_only_where_its_names_lead(
    walk: OpenWalkView,
    hop: Result<(), IoFaultView>,
)
    requires
        walk.wf(),
        walk.phase != WalkPhase::Root,
    ensures
        walk.answer(hop) matches WalkActionView::Reached(place) ==> {
            &&& place.canonical == canonical_path(walk.root, walk.names)
            &&& place.name == walk.names.last()
            &&& !walk.to_parent ==> walk.target.key.0 == fnv1a_hash(place.canonical)
            &&& place.exists ==> walk.phase == WalkPhase::File && hop is Ok
        },
        hop matches Err(f) ==> f.class == FaultClass::Loop ==> walk.answer(hop) is Refused,
        hop matches Err(f) ==> f.class == FaultClass::Loop && (walk.phase == WalkPhase::Open
            || walk.phase == WalkPhase::File) ==> walk.answer(
            hop,
        )->Refused_0.code == ErrorCode::SandboxDenied,
        hop matches Err(f) ==> f.class == FaultClass::PermissionDenied ==> (walk.answer(
            hop,
        ) matches WalkActionView::Refused(e) && e.code == ErrorCode::PermissionDenied),
        walk.phase == WalkPhase::File && hop is Ok && walk.target.key.0 == fnv1a_hash(
            canonical_path(walk.root, walk.names),
        ) ==> (walk.answer(hop) matches WalkActionView::Reached(place) && place.exists),
        walk.phase == WalkPhase::File && (hop matches Err(f) && f.class == FaultClass::NotFound)
            && walk.target.key.0 == fnv1a_hash(canonical_path(walk.root, walk.names)) ==> (
        walk.answer(hop) matches WalkActionView::Reached(place) && !place.exists),
{
}

/// A walk stands in the directory of its file when it comes to the file.
pub proof fn law_a_walk_holds_the_directory_of_its_file(walk: OpenWalkView, exists: bool)
    requires
        walk.wf(),
        walk.phase == WalkPhase::File,
    ensures
        walk.place(exists).dir == canonical_path(walk.root, walk.names.drop_last()),
        walk.place(exists).canonical == child_path(
            walk.place(exists).dir,
            encode_utf8(walk.names.last()),
        ),
{
    assert(walk.names.take(walk.at as int) =~= walk.names.drop_last());
}

} // verus!
