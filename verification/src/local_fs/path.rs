//! Workspace paths: lexical normalization of caller spellings, and the
//! canonical byte path that a file's identity is hashed from.

use vstd::prelude::*;
use vstd::utf8::encode_utf8;

use crate::local_fs::bytes::push_range;
use crate::text::{chars_of, join, joined, owned, same, texts};

verus! {

// ---------------------------------------------------------------------------
// Splitting
// ---------------------------------------------------------------------------

/// The pieces of `path` between slashes, empty pieces kept.
pub open spec fn split_path(path: Seq<char>) -> Seq<Seq<char>>
    decreases path.len(),
{
    if path.len() == 0 {
        seq![Seq::empty()]
    } else {
        let before = split_path(path.drop_last());
        if path.last() == '/' {
            before.push(Seq::empty())
        } else {
            before.drop_last().push(before.last().push(path.last()))
        }
    }
}

/// There is always at least one piece.
pub proof fn lemma_split_nonempty(path: Seq<char>)
    ensures
        split_path(path).len() > 0,
    decreases path.len(),
{
    if path.len() > 0 {
        lemma_split_nonempty(path.drop_last());
    }
}

/// The pieces of `path` between slashes.
fn split(path: &str) -> (r: Vec<String>)
    ensures
        texts(r@) == split_path(path@),
{
    let cs = chars_of(path);
    let mut out: Vec<String> = Vec::new();
    let mut current = String::new();
    assert(cs@.take(0) =~= Seq::<char>::empty());
    assert(texts(out@).push(current@) =~= split_path(cs@.take(0)));
    for i in 0..cs.len()
        invariant
            texts(out@).push(current@) == split_path(cs@.take(i as int)),
    {
        let c = cs[i];
        let ghost before = texts(out@).push(current@);
        assert(cs@.take(i + 1).drop_last() =~= cs@.take(i as int));
        assert(before.drop_last() =~= texts(out@));
        if c == '/' {
            let ghost was = out@;
            let ghost piece = current;
            out.push(current);
            assert(texts(out@) =~= before);
            current = String::new();
        } else {
            current.push(c);
        }
        assert(texts(out@).push(current@) =~= split_path(cs@.take(i + 1)));
    }
    assert(cs@.take(cs@.len() as int) =~= cs@);
    let ghost was = out@;
    out.push(current);
    assert(texts(out@) =~= texts(was).push(current@));
    out
}

// ---------------------------------------------------------------------------
// Normalization
// ---------------------------------------------------------------------------

/// A piece that names nothing: an empty piece or `.`.
pub open spec fn is_here(piece: Seq<char>) -> bool {
    piece == Seq::<char>::empty() || piece == "."@
}

/// The piece that climbs one directory.
pub open spec fn is_up(piece: Seq<char>) -> bool {
    piece == ".."@
}

/// Cancel `.` and `..` from the left. `None` when a `..` would climb past the
/// start.
pub open spec fn cancelled(pieces: Seq<Seq<char>>) -> Option<Seq<Seq<char>>>
    decreases pieces.len(),
{
    if pieces.len() == 0 {
        Some(Seq::empty())
    } else {
        match cancelled(pieces.drop_last()) {
            None => None,
            Some(names) => if is_here(pieces.last()) {
                Some(names)
            } else if is_up(pieces.last()) {
                if names.len() == 0 {
                    None
                } else {
                    Some(names.drop_last())
                }
            } else {
                Some(names.push(pieces.last()))
            },
        }
    }
}

/// Cancel `.` and `..` from the left, a `..` at the start naming the start.
pub open spec fn clamped(pieces: Seq<Seq<char>>) -> Seq<Seq<char>>
    decreases pieces.len(),
{
    if pieces.len() == 0 {
        Seq::empty()
    } else {
        let names = clamped(pieces.drop_last());
        if is_here(pieces.last()) {
            names
        } else if is_up(pieces.last()) {
            if names.len() == 0 {
                names
            } else {
                names.drop_last()
            }
        } else {
            names.push(pieces.last())
        }
    }
}

/// The pieces that are neither empty nor `.`, in order.
pub open spec fn tidied(pieces: Seq<Seq<char>>) -> Seq<Seq<char>>
    decreases pieces.len(),
{
    if pieces.len() == 0 {
        Seq::empty()
    } else if is_here(pieces.last()) {
        tidied(pieces.drop_last())
    } else {
        tidied(pieces.drop_last()).push(pieces.last())
    }
}

/// Whether `path` is absolute.
pub open spec fn is_absolute(path: Seq<char>) -> bool {
    path.len() > 0 && path[0] == '/'
}

/// The names a workspace-relative spelling comes to; `None` when it is
/// absolute or climbs out of the workspace.
pub open spec fn normal_names(path: Seq<char>) -> Option<Seq<Seq<char>>> {
    if is_absolute(path) {
        None
    } else {
        cancelled(split_path(path))
    }
}

/// The names a target's display comes to; `None` when it is absolute.
pub open spec fn display_names(path: Seq<char>) -> Option<Seq<Seq<char>>> {
    if is_absolute(path) {
        None
    } else {
        Some(clamped(split_path(path)))
    }
}

fn absolute(path: &str) -> (r: bool)
    ensures
        r == is_absolute(path@),
{
    let cs = chars_of(path);
    cs.len() > 0 && cs[0] == '/'
}

fn here(piece: &str) -> (r: bool)
    ensures
        r == is_here(piece@),
{
    assert(piece@.len() == 0 ==> piece@ =~= Seq::<char>::empty());
    piece.is_empty() || same(piece, ".")
}

/// The names a workspace-relative spelling comes to.
pub fn normalize(path: &str) -> (r: Option<Vec<String>>)
    ensures
        match r {
            Some(names) => normal_names(path@) == Some(texts(names@)),
            None => normal_names(path@) is None,
        },
{
    if absolute(path) {
        return None;
    }
    let pieces = split(path);
    let ghost all = texts(pieces@);
    let mut names: Vec<String> = Vec::new();
    assert(texts(names@) =~= Seq::<Seq<char>>::empty());
    assert(all.take(0) =~= Seq::<Seq<char>>::empty());
    for i in 0..pieces.len()
        invariant
            all == texts(pieces@),
            all == split_path(path@),
            cancelled(all.take(i as int)) == Some(texts(names@)),
            !is_absolute(path@),
    {
        let ghost before = names@;
        let ghost upto = all.take(i + 1);
        assert(upto.drop_last() =~= all.take(i as int));
        assert(upto.last() == pieces@[i as int]@);
        let piece = pieces[i].as_str();
        if here(piece) {
        } else if same(piece, "..") {
            if names.len() == 0 {
                proof {
                    lemma_cancelled_stuck(all, i + 1);
                }
                return None;
            }
            names.pop();
            assert(texts(names@) =~= texts(before).drop_last());
        } else {
            names.push(owned(piece));
            assert(texts(names@) =~= texts(before).push(piece@));
        }
    }
    assert(all.take(all.len() as int) =~= all);
    Some(names)
}

/// Once a prefix climbs out, the whole does.
proof fn lemma_cancelled_stuck(pieces: Seq<Seq<char>>, n: int)
    requires
        0 <= n <= pieces.len(),
        cancelled(pieces.take(n)) is None,
    ensures
        cancelled(pieces) is None,
    decreases pieces.len() - n,
{
    if n < pieces.len() {
        assert(pieces.take(n + 1).drop_last() =~= pieces.take(n));
        lemma_cancelled_stuck(pieces, n + 1);
    } else {
        assert(pieces.take(n) =~= pieces);
    }
}

/// The names a target's display comes to.
pub fn names_of_display(path: &str) -> (r: Option<Vec<String>>)
    ensures
        match r {
            Some(names) => display_names(path@) == Some(texts(names@)),
            None => display_names(path@) is None,
        },
{
    if absolute(path) {
        return None;
    }
    let pieces = split(path);
    let ghost all = texts(pieces@);
    let mut names: Vec<String> = Vec::new();
    assert(texts(names@) =~= Seq::<Seq<char>>::empty());
    assert(all.take(0) =~= Seq::<Seq<char>>::empty());
    for i in 0..pieces.len()
        invariant
            all == texts(pieces@),
            clamped(all.take(i as int)) == texts(names@),
    {
        let ghost before = names@;
        let ghost upto = all.take(i + 1);
        assert(upto.drop_last() =~= all.take(i as int));
        assert(upto.last() == pieces@[i as int]@);
        let piece = pieces[i].as_str();
        if here(piece) {
        } else if same(piece, "..") {
            if names.len() > 0 {
                names.pop();
                assert(texts(names@) =~= texts(before).drop_last());
            }
        } else {
            names.push(owned(piece));
            assert(texts(names@) =~= texts(before).push(piece@));
        }
    }
    assert(all.take(all.len() as int) =~= all);
    Some(names)
}

/// The pieces of `path` that are neither empty nor `.`.
pub fn tidy(path: &str) -> (r: Vec<String>)
    ensures
        texts(r@) == tidied(split_path(path@)),
{
    let pieces = split(path);
    let ghost all = texts(pieces@);
    let mut names: Vec<String> = Vec::new();
    assert(texts(names@) =~= Seq::<Seq<char>>::empty());
    assert(all.take(0) =~= Seq::<Seq<char>>::empty());
    for i in 0..pieces.len()
        invariant
            all == texts(pieces@),
            tidied(all.take(i as int)) == texts(names@),
    {
        let ghost before = names@;
        let ghost upto = all.take(i + 1);
        assert(upto.drop_last() =~= all.take(i as int));
        assert(upto.last() == pieces@[i as int]@);
        let piece = pieces[i].as_str();
        if !here(piece) {
            names.push(owned(piece));
            assert(texts(names@) =~= texts(before).push(piece@));
        }
    }
    assert(all.take(all.len() as int) =~= all);
    names
}

// ---------------------------------------------------------------------------
// Canonical paths
// ---------------------------------------------------------------------------

/// The path of the entry `name` inside the directory `dir`.
pub open spec fn child_path(dir: Seq<u8>, name: Seq<u8>) -> Seq<u8> {
    if dir.len() > 0 && dir.last() != 47 {
        dir.push(47) + name
    } else {
        dir + name
    }
}

/// The path reached from `root` by descending through `names`.
pub open spec fn canonical_path(root: Seq<u8>, names: Seq<Seq<char>>) -> Seq<u8>
    decreases names.len(),
{
    if names.len() == 0 {
        root
    } else {
        child_path(canonical_path(root, names.drop_last()), encode_utf8(names.last()))
    }
}

/// The path of the entry `name` inside the directory `dir`.
pub fn child(dir: &[u8], name: &[u8]) -> (r: Vec<u8>)
    ensures
        r@ == child_path(dir@, name@),
{
    let mut out: Vec<u8> = Vec::new();
    push_range(&mut out, dir, 0, dir.len());
    if dir.len() > 0 && dir[dir.len() - 1] != 47 {
        out.push(47);
    }
    push_range(&mut out, name, 0, name.len());
    assert(out@ =~= child_path(dir@, name@));
    out
}

/// The path reached from `root` by descending through the first `count` names.
pub fn canonical(root: &[u8], names: &Vec<String>, count: usize) -> (r: Vec<u8>)
    requires
        count <= names@.len(),
    ensures
        r@ == canonical_path(root@, texts(names@).take(count as int)),
{
    let mut out: Vec<u8> = Vec::new();
    push_range(&mut out, root, 0, root.len());
    assert(out@ =~= root@);
    for i in 0..count
        invariant
            count <= names@.len(),
            out@ == canonical_path(root@, texts(names@).take(i as int)),
    {
        let ghost upto = texts(names@).take(i + 1);
        assert(upto.drop_last() =~= texts(names@).take(i as int));
        out = child(out.as_slice(), names[i].as_str().as_bytes());
    }
    out
}

/// The name a resolved target is shown by: `.` for the workspace itself.
pub open spec fn shown_names(names: Seq<Seq<char>>) -> Seq<char> {
    if names.len() == 0 {
        "."@
    } else {
        joined(names, "/"@)
    }
}

/// The name a resolved target is shown by.
pub fn show_names(names: &Vec<String>) -> (r: String)
    ensures
        r@ == shown_names(texts(names@)),
{
    if names.len() == 0 {
        owned(".")
    } else {
        join(names, "/")
    }
}

// ---------------------------------------------------------------------------
// Laws
// ---------------------------------------------------------------------------

/// A name that stands for one directory entry: not empty, not `.` or `..`,
/// and free of slashes.
pub open spec fn is_plain(name: Seq<char>) -> bool {
    &&& !is_here(name)
    &&& !is_up(name)
    &&& !name.contains('/')
}

/// Appending slash-free characters extends the last piece.
proof fn lemma_split_extend(path: Seq<char>, tail: Seq<char>)
    requires
        !tail.contains('/'),
    ensures
        split_path(path + tail) == split_path(path).drop_last().push(split_path(path).last() + tail),
    decreases tail.len(),
{
    lemma_split_nonempty(path);
    let s = split_path(path);
    if tail.len() == 0 {
        assert(path + tail =~= path);
        assert(s.last() + tail =~= s.last());
        assert(s.drop_last().push(s.last()) =~= s);
    } else {
        assert(tail[tail.len() - 1] == tail.last());
        assert(!tail.drop_last().contains('/'));
        lemma_split_extend(path, tail.drop_last());
        assert((path + tail).drop_last() =~= path + tail.drop_last());
        assert((path + tail).last() == tail.last());
        let before = split_path(path + tail.drop_last());
        assert(before.drop_last() =~= s.drop_last());
        assert(before.last().push(tail.last()) =~= s.last() + tail);
    }
}

/// Splitting a joined list of slash-free names gives the names back.
pub proof fn lemma_split_joined(names: Seq<Seq<char>>)
    requires
        names.len() > 0,
        forall|i: int| 0 <= i < names.len() ==> !(#[trigger] names[i]).contains('/'),
    ensures
        split_path(joined(names, "/"@)) == names,
    decreases names.len(),
{
    reveal_strlit("/");
    assert("/"@ =~= seq!['/']);
    let last = names.last();
    if names.len() == 1 {
        let empty = Seq::<char>::empty();
        lemma_split_extend(empty, last);
        assert(empty + last =~= last);
        assert(split_path(empty) =~= seq![Seq::<char>::empty()]);
        assert(split_path(last) =~= names);
    } else {
        let init = names.drop_last();
        lemma_split_joined(init);
        let head = joined(init, "/"@);
        let slashed = head + "/"@;
        assert(slashed.drop_last() =~= head);
        assert(slashed.last() == '/');
        assert(split_path(slashed) == init.push(Seq::empty()));
        lemma_split_extend(slashed, last);
        assert(Seq::<char>::empty() + last =~= last);
        assert(split_path(slashed).drop_last() =~= init);
        assert(init.push(last) =~= names);
    }
}

/// Plain names survive normalization untouched.
pub proof fn lemma_plain_names_kept(names: Seq<Seq<char>>)
    requires
        forall|i: int| 0 <= i < names.len() ==> is_plain(#[trigger] names[i]),
    ensures
        cancelled(names) == Some(names),
        clamped(names) == names,
        tidied(names) == names,
    decreases names.len(),
{
    if names.len() > 0 {
        lemma_plain_names_kept(names.drop_last());
        assert(is_plain(names[names.len() - 1]));
        assert(names.drop_last().push(names.last()) =~= names);
    }
}

/// What normalization yields is always a list of plain names.
pub proof fn lemma_normal_names_plain(path: Seq<char>)
    ensures
        normal_names(path) matches Some(names) ==> forall|i: int|
            0 <= i < names.len() ==> is_plain(#[trigger] names[i]),
{
    lemma_pieces_slash_free(path);
    lemma_cancelled_plain(split_path(path));
}

pub proof fn lemma_pieces_slash_free(path: Seq<char>)
    ensures
        forall|i: int| 0 <= i < split_path(path).len() ==> !(#[trigger] split_path(path)[i]).contains('/'),
    decreases path.len(),
{
    if path.len() > 0 {
        lemma_pieces_slash_free(path.drop_last());
        lemma_split_nonempty(path.drop_last());
        let before = split_path(path.drop_last());
        let after = split_path(path);
        assert forall|i: int| 0 <= i < after.len() implies !(#[trigger] after[i]).contains('/') by {
            if path.last() == '/' {
                if i < before.len() {
                    assert(after[i] == before[i]);
                }
            } else if i < before.len() - 1 {
                assert(after[i] == before[i]);
            } else {
                let last = before[before.len() - 1];
                assert(!last.contains('/'));
                assert(after[i] == last.push(path.last()));
                assert forall|k: int| 0 <= k < after[i].len() implies after[i][k] != '/' by {
                    if k < last.len() {
                        assert(last[k] != '/');
                    }
                }
            }
        }
    }
}

proof fn lemma_cancelled_plain(pieces: Seq<Seq<char>>)
    requires
        forall|i: int| 0 <= i < pieces.len() ==> !(#[trigger] pieces[i]).contains('/'),
    ensures
        cancelled(pieces) matches Some(names) ==> forall|i: int|
            0 <= i < names.len() ==> is_plain(#[trigger] names[i]),
    decreases pieces.len(),
{
    if pieces.len() > 0 {
        lemma_cancelled_plain(pieces.drop_last());
        assert(!pieces[pieces.len() - 1].contains('/'));
    }
}

/// Showing a normalized path and normalizing what is shown comes back to the
/// same names, by the rules for caller spellings and by those for displays.
pub proof fn lemma_shown_names_normalize(names: Seq<Seq<char>>)
    requires
        forall|i: int| 0 <= i < names.len() ==> is_plain(#[trigger] names[i]),
    ensures
        normal_names(shown_names(names)) == Some(names),
        display_names(shown_names(names)) == Some(names),
{
    reveal_strlit(".");
    reveal_strlit("..");
    if names.len() == 0 {
        let dot = "."@;
        let empty = Seq::<char>::empty();
        assert(dot.drop_last() =~= empty);
        assert(split_path(empty) == seq![empty]);
        let pieces = split_path(dot);
        assert(pieces =~= seq![dot]) by {
            assert(empty.push('.') =~= dot);
        }
        assert(pieces.drop_last() =~= Seq::<Seq<char>>::empty());
        assert(names =~= Seq::<Seq<char>>::empty());
        assert(is_here(pieces.last()));
        assert(clamped(pieces.drop_last()) =~= names);
        assert(clamped(pieces) =~= names);
    } else {
        lemma_plain_names_kept(names);
        assert forall|i: int| 0 <= i < names.len() implies !(#[trigger] names[i]).contains('/') by {
            assert(is_plain(names[i]));
        }
        lemma_split_joined(names);
        let first = names[0];
        assert(is_plain(first));
        assert(first.len() > 0) by {
            assert(first.len() == 0 ==> first =~= Seq::<char>::empty());
        }
        assert(first.contains(first[0]));
        lemma_joined_head(names);
    }
}

/// A joined list starts with its first name's first character.
pub proof fn lemma_joined_head(names: Seq<Seq<char>>)
    requires
        names.len() > 0,
        names[0].len() > 0,
    ensures
        joined(names, "/"@).len() > 0,
        joined(names, "/"@)[0] == names[0][0],
    decreases names.len(),
{
    if names.len() > 1 {
        lemma_joined_head(names.drop_last());
    }
}

/// Every canonical path stays inside the root: the root is a prefix of it.
pub proof fn law_canonical_paths_stay_inside_the_root(root: Seq<u8>, names: Seq<Seq<char>>)
    ensures
        root.len() <= canonical_path(root, names).len(),
        canonical_path(root, names).take(root.len() as int) == root,
    decreases names.len(),
{
    if names.len() > 0 {
        let dir = canonical_path(root, names.drop_last());
        law_canonical_paths_stay_inside_the_root(root, names.drop_last());
        let path = canonical_path(root, names);
        assert(path.take(dir.len() as int) =~= dir);
        assert(path.take(root.len() as int) =~= dir.take(root.len() as int));
    } else {
        assert(root.take(root.len() as int) =~= root);
    }
}

} // verus!
