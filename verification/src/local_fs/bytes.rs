//! Byte-level building blocks: hashing, matching, line totals, bounded reads,
//! and the text test.

use vstd::prelude::*;
use vstd::utf8::{
    length_of_first_scalar, pop_first_scalar, valid_first_scalar, valid_utf8,
};

use crate::text::{occurs, occurs_at, same_bytes};

verus! {

// ---------------------------------------------------------------------------
// Hashing
// ---------------------------------------------------------------------------

/// The 64-bit FNV-1a hash: start at the offset basis; for each byte, xor it
/// in and multiply by the prime, modulo two to the sixty-fourth.
pub open spec fn fnv1a_hash(bytes: Seq<u8>) -> u64
    decreases bytes.len(),
{
    if bytes.len() == 0 {
        0xcbf2_9ce4_8422_2325
    } else {
        (fnv1a_hash(bytes.drop_last()) ^ (bytes.last() as u64)).wrapping_mul(0x0000_0100_0000_01b3)
    }
}

/// FNV-1a, 64-bit. Stable across runs and platforms; keys are only ever
/// compared for equality, never parsed.
pub fn fnv1a(bytes: &[u8]) -> (hash: u64)
    ensures
        hash == fnv1a_hash(bytes@),
{
    let mut hash: u64 = 0xcbf2_9ce4_8422_2325;
    for i in 0..bytes.len()
        invariant
            hash == fnv1a_hash(bytes@.take(i as int)),
    {
        assert(bytes@.take(i + 1).drop_last() =~= bytes@.take(i as int));
        hash = (hash ^ (bytes[i] as u64)).wrapping_mul(0x0000_0100_0000_01b3);
    }
    assert(bytes@.take(bytes@.len() as int) =~= bytes@);
    hash
}

// ---------------------------------------------------------------------------
// Matching
// ---------------------------------------------------------------------------

/// Whether `at` is the first position of `needle` in `hay`.
pub open spec fn first_match(hay: Seq<u8>, needle: Seq<u8>, at: int) -> bool {
    &&& occurs_at(hay, needle, at)
    &&& forall|k: int| 0 <= k < at ==> !occurs_at(hay, needle, k)
}

/// Byte-substring search: the first position of `needle`.
pub fn find(haystack: &[u8], needle: &[u8]) -> (r: Option<usize>)
    requires
        needle@.len() > 0,
    ensures
        match r {
            Some(at) => first_match(haystack@, needle@, at as int),
            None => !occurs(haystack@, needle@),
        },
{
    assert(haystack@.skip(0) =~= haystack@);
    find_from(haystack, needle, 0)
}

/// The first position of `needle` in `haystack[from..]`, counted from `from`.
fn find_from(haystack: &[u8], needle: &[u8], from: usize) -> (r: Option<usize>)
    requires
        from <= haystack@.len(),
    ensures
        match r {
            Some(at) => first_match(haystack@.skip(from as int), needle@, at as int),
            None => !occurs(haystack@.skip(from as int), needle@),
        },
{
    let ghost rest = haystack@.skip(from as int);
    if needle.len() > haystack.len() - from {
        return None;
    }
    let last: usize = haystack.len() - from - needle.len();
    let mut at: usize = 0;
    loop
        invariant
            from <= haystack@.len(),
            rest == haystack@.skip(from as int),
            needle@.len() <= haystack@.len() - from,
            last == haystack@.len() - from - needle@.len(),
            haystack.len() == haystack@.len(),
            at <= last,
            forall|k: int| 0 <= k < at ==> !occurs_at(rest, needle@, k),
        decreases last - at,
    {
        let window = vstd::slice::slice_subrange(haystack, from + at, from + at + needle.len());
        assert(window@ =~= rest.subrange(at as int, at + needle@.len()));
        if same_bytes(window, needle) {
            return Some(at);
        }
        if at == last {
            assert forall|k: int| !occurs_at(rest, needle@, k) by {
                assert(k > last ==> k + needle@.len() > rest.len());
            }
            return None;
        }
        at = at + 1;
    }
}

/// How many times `needle` occurs in `hay`, scanning from the left without
/// overlaps. An empty needle never matches.
pub open spec fn match_count(hay: Seq<u8>, needle: Seq<u8>) -> nat
    decreases hay.len(),
{
    if needle.len() == 0 || !occurs(hay, needle) {
        0
    } else {
        let at = choose|at: int| first_match(hay, needle, at);
        if 0 <= at && at + needle.len() <= hay.len() {
            1 + match_count(hay.skip(at + needle.len()), needle)
        } else {
            0
        }
    }
}

/// A first match is the only first match.
proof fn lemma_first_match_unique(hay: Seq<u8>, needle: Seq<u8>, a: int, b: int)
    requires
        first_match(hay, needle, a),
        first_match(hay, needle, b),
    ensures
        a == b,
{
    if a < b {
        assert(!occurs_at(hay, needle, a));
    } else if b < a {
        assert(!occurs_at(hay, needle, b));
    }
}

/// Peeling off the first match.
pub proof fn lemma_match_count_step(hay: Seq<u8>, needle: Seq<u8>, at: int)
    requires
        needle.len() > 0,
        first_match(hay, needle, at),
    ensures
        match_count(hay, needle) == 1 + match_count(hay.skip(at + needle.len()), needle),
{
    assert(occurs(hay, needle));
    let chosen = choose|at: int| first_match(hay, needle, at);
    lemma_first_match_unique(hay, needle, at, chosen);
}

/// Count occurrences of `needle` in `haystack` without overlapping matches.
pub fn count_matches(haystack: &[u8], needle: &[u8]) -> (count: usize)
    ensures
        count == match_count(haystack@, needle@),
{
    if needle.len() == 0 {
        return 0;
    }
    let mut count: usize = 0;
    let mut at: usize = 0;
    assert(haystack@.skip(0) =~= haystack@);
    loop
        invariant
            needle@.len() > 0,
            at <= haystack@.len(),
            haystack.len() == haystack@.len(),
            count <= at,
            count + match_count(haystack@.skip(at as int), needle@) == match_count(
                haystack@,
                needle@,
            ),
        decreases haystack@.len() - at,
    {
        match find_from(haystack, needle, at) {
            None => {
                return count;
            },
            Some(offset) => {
                let ghost rest = haystack@.skip(at as int);
                proof {
                    lemma_match_count_step(rest, needle@, offset as int);
                    assert(rest.skip(offset + needle@.len()) =~= haystack@.skip(
                        at + offset + needle@.len(),
                    ));
                }
                count = count + 1;
                at = at + offset + needle.len();
            },
        }
    }
}

/// `bytes` with `find` (found at `at`) replaced by `replace`.
pub open spec fn spliced(bytes: Seq<u8>, at: int, find: Seq<u8>, replace: Seq<u8>) -> Seq<u8> {
    bytes.take(at) + replace + bytes.skip(at + find.len())
}

/// Copy `bytes[from..to]` to the end of `out`.
pub fn push_range(out: &mut Vec<u8>, bytes: &[u8], from: usize, to: usize)
    requires
        from <= to <= bytes@.len(),
    ensures
        final(out)@ == old(out)@ + bytes@.subrange(from as int, to as int),
{
    let ghost start = out@;
    let mut i: usize = from;
    while i < to
        invariant
            from <= i <= to <= bytes@.len(),
            out@ == start + bytes@.subrange(from as int, i as int),
        decreases to - i,
    {
        assert(bytes@.subrange(from as int, i + 1) =~= bytes@.subrange(from as int, i as int).push(
            bytes@[i as int],
        ));
        out.push(bytes[i]);
        i = i + 1;
    }
}

/// `bytes` with the `find` at `at` replaced by `replace`.
pub fn splice(bytes: &[u8], at: usize, find: &[u8], replace: &[u8]) -> (r: Vec<u8>)
    requires
        at + find.len() <= bytes.len(),
    ensures
        r@ == spliced(bytes@, at as int, find@, replace@),
{
    let mut out: Vec<u8> = Vec::new();
    push_range(&mut out, bytes, 0, at);
    push_range(&mut out, replace, 0, replace.len());
    push_range(&mut out, bytes, at + find.len(), bytes.len());
    assert(out@ =~= spliced(bytes@, at as int, find@, replace@));
    out
}

// ---------------------------------------------------------------------------
// Lines
// ---------------------------------------------------------------------------

/// The number of newline bytes.
pub open spec fn newline_count(bytes: Seq<u8>) -> nat
    decreases bytes.len(),
{
    if bytes.len() == 0 {
        0
    } else {
        newline_count(bytes.drop_last()) + if bytes.last() == 10 {
            1nat
        } else {
            0nat
        }
    }
}

/// The line total: complete lines, plus one for a trailing partial line.
pub open spec fn line_total(bytes: Seq<u8>) -> nat {
    newline_count(bytes) + if bytes.len() > 0 && bytes.last() != 10 {
        1nat
    } else {
        0nat
    }
}

/// Newlines of a concatenation add up.
pub proof fn lemma_newline_count_concat(a: Seq<u8>, b: Seq<u8>)
    ensures
        newline_count(a + b) == newline_count(a) + newline_count(b),
    decreases b.len(),
{
    if b.len() == 0 {
        assert(a + b =~= a);
    } else {
        assert((a + b).drop_last() =~= a + b.drop_last());
        lemma_newline_count_concat(a, b.drop_last());
    }
}

/// There are never more newlines than bytes.
pub proof fn lemma_newline_count_bound(a: Seq<u8>)
    ensures
        newline_count(a) <= a.len(),
        line_total(a) <= a.len(),
    decreases a.len(),
{
    if a.len() > 0 {
        lemma_newline_count_bound(a.drop_last());
    }
}

/// The line count a provider must report: the number of complete lines, plus
/// one for a trailing partial line.
pub fn line_count(bytes: &[u8]) -> (r: u64)
    ensures
        r == line_total(bytes@),
{
    let mut count: u64 = 0;
    for i in 0..bytes.len()
        invariant
            count == newline_count(bytes@.take(i as int)),
            count <= i,
    {
        assert(bytes@.take(i + 1).drop_last() =~= bytes@.take(i as int));
        if bytes[i] == 10 {
            count = count + 1;
        }
    }
    assert(bytes@.take(bytes@.len() as int) =~= bytes@);
    proof {
        lemma_newline_count_bound(bytes@);
    }
    if bytes.len() > 0 && bytes[bytes.len() - 1] != 10 {
        count + 1
    } else {
        count
    }
}

// ---------------------------------------------------------------------------
// Bounded reads
// ---------------------------------------------------------------------------

/// A bounded read in progress: at most `cap` bytes are kept, while every byte
/// seen is counted, so the line total stays exact past the cap.
pub struct Window {
    cap: usize,
    contents: Vec<u8>,
    newlines: u64,
    nonempty: bool,
    ends_with_newline: bool,
    truncated: bool,
    seen: Ghost<Seq<u8>>,
}

impl Window {
    /// Every byte fed so far.
    pub closed spec fn seen(&self) -> Seq<u8> {
        self.seen@
    }

    /// The byte cap.
    pub closed spec fn cap(&self) -> nat {
        self.cap as nat
    }

    /// The bookkeeping agrees with the bytes seen.
    pub closed spec fn wf(&self) -> bool {
        let seen = self.seen@;
        &&& self.contents@ == kept(seen, self.cap as nat)
        &&& self.newlines == newline_count(seen)
        &&& self.nonempty == (seen.len() > 0)
        &&& self.nonempty ==> self.ends_with_newline == (seen.last() == 10)
        &&& self.truncated == (seen.len() > self.cap)
    }

    /// A read that has seen nothing and keeps at most `cap` bytes.
    pub fn new(cap: usize) -> (r: Window)
        ensures
            r.wf(),
            r.cap() == cap,
            r.seen() == Seq::<u8>::empty(),
    {
        let r = Window {
            cap,
            contents: Vec::new(),
            newlines: 0,
            nonempty: false,
            ends_with_newline: true,
            truncated: false,
            seen: Ghost(Seq::empty()),
        };
        assert(r.contents@ =~= kept(r.seen@, r.cap as nat));
        r
    }

    /// Take in the next chunk of the file.
    pub fn feed(&mut self, chunk: &[u8])
        requires
            old(self).wf(),
            old(self).seen().len() + chunk@.len() <= u64::MAX,
        ensures
            final(self).wf(),
            final(self).cap() == old(self).cap(),
            final(self).seen() == old(self).seen() + chunk@,
    {
        let ghost before = self.seen@;
        let ghost after = before + chunk@;
        proof {
            lemma_newline_count_concat(before, chunk@);
            lemma_newline_count_bound(after);
            assert(chunk@.len() > 0 ==> after.last() == chunk@.last());
            assert(chunk@.len() == 0 ==> after =~= before);
        }
        if chunk.len() > 0 {
            self.nonempty = true;
            self.ends_with_newline = chunk[chunk.len() - 1] == 10;
        }
        let mut i: usize = 0;
        let start: u64 = self.newlines;
        let mut fresh: u64 = 0;
        while i < chunk.len()
            invariant
                i <= chunk@.len(),
                fresh == newline_count(chunk@.take(i as int)),
                fresh <= i,
                i <= u64::MAX,
            decreases chunk@.len() - i,
        {
            assert(chunk@.take(i + 1).drop_last() =~= chunk@.take(i as int));
            if chunk[i] == 10 {
                fresh = fresh + 1;
            }
            i = i + 1;
        }
        assert(chunk@.take(chunk@.len() as int) =~= chunk@);
        self.newlines = start + fresh;
        let room: usize = self.cap - self.contents.len();
        let take: usize = if room < chunk.len() { room } else { chunk.len() };
        push_range(&mut self.contents, chunk, 0, take);
        if take < chunk.len() {
            self.truncated = true;
        }
        self.seen = Ghost(after);
        assert(self.contents@ =~= kept(after, self.cap as nat));
    }

    /// The outcome once the file is exhausted: the bytes kept, the line total
    /// of everything seen, and whether the cap cut anything.
    pub fn finish(self) -> (r: (Vec<u8>, u64, bool))
        requires
            self.wf(),
            self.seen().len() <= u64::MAX,
        ensures
            r.0@ == kept(self.seen(), self.cap()),
            r.1 == line_total(self.seen()),
            r.2 == (self.seen().len() > self.cap()),
    {
        proof {
            lemma_newline_count_bound(self.seen@);
        }
        let total: u64 = if !self.nonempty {
            0
        } else if self.ends_with_newline {
            self.newlines
        } else {
            self.newlines + 1
        };
        (self.contents, total, self.truncated)
    }
}

/// The bytes a bounded read keeps.
pub open spec fn kept(bytes: Seq<u8>, cap: nat) -> Seq<u8> {
    if bytes.len() <= cap {
        bytes
    } else {
        bytes.take(cap as int)
    }
}

// ---------------------------------------------------------------------------
// The text test
// ---------------------------------------------------------------------------

/// How many leading bytes are whole, well-formed UTF-8 scalars.
pub open spec fn text_prefix(bytes: Seq<u8>) -> nat
    decreases bytes.len(),
{
    if bytes.len() > 0 && valid_first_scalar(bytes) {
        (length_of_first_scalar(bytes) + text_prefix(pop_first_scalar(bytes))) as nat
    } else {
        0
    }
}

/// Whether `rest` is the beginning of one well-formed scalar.
pub open spec fn is_cut(rest: Seq<u8>) -> bool {
    rest.len() > 0 && exists|tail: Seq<u8>| valid_first_scalar(#[trigger] (rest + tail))
}

/// Where the UTF-8 reading of a byte string stopped.
pub struct Utf8Scan {
    /// The length of the longest well-formed prefix.
    pub valid_up_to: usize,
    /// Whether the bytes simply ended inside a scalar that began well.
    pub cut: bool,
}

/// `std::str::from_utf8`: the well-formed prefix it verifies
/// (`Utf8Error::valid_up_to`), and whether it stopped because the input ended
/// in the middle of a scalar (`Utf8Error::error_len` is `None`) rather than on
/// a byte that cannot stand there.
#[verifier::external_body]
pub(crate) fn utf8_scan(bytes: &[u8]) -> (r: Utf8Scan)
    ensures
        r.valid_up_to == text_prefix(bytes@),
        r.cut == is_cut(bytes@.skip(text_prefix(bytes@) as int)),
{
    match std::str::from_utf8(bytes) {
        Ok(_) => Utf8Scan { valid_up_to: bytes.len(), cut: false },
        Err(e) => Utf8Scan { valid_up_to: e.valid_up_to(), cut: e.error_len().is_none() },
    }
}

/// The well-formed prefix never runs past the end, is well-formed, and is the
/// whole exactly when the whole is well-formed.
pub proof fn lemma_text_prefix(bytes: Seq<u8>)
    ensures
        text_prefix(bytes) <= bytes.len(),
        valid_utf8(bytes) <==> text_prefix(bytes) == bytes.len(),
        valid_utf8(bytes.take(text_prefix(bytes) as int)),
    decreases bytes.len(),
{
    if bytes.len() > 0 && valid_first_scalar(bytes) {
        let len = length_of_first_scalar(bytes);
        let rest = pop_first_scalar(bytes);
        lemma_text_prefix(rest);
        let whole = bytes.take(text_prefix(bytes) as int);
        assert(pop_first_scalar(whole) =~= rest.take(text_prefix(rest) as int));
        assert(valid_first_scalar(whole));
    } else {
        assert(bytes.take(0) =~= Seq::<u8>::empty());
    }
}

/// Cutting a text anywhere leaves well-formed text, or well-formed text
/// followed by the beginning of one scalar.
pub proof fn lemma_cut_text(file: Seq<u8>, cap: int)
    requires
        valid_utf8(file),
        0 <= cap <= file.len(),
    ensures
        valid_utf8(file.take(cap)) || is_cut(
            file.take(cap).skip(text_prefix(file.take(cap)) as int),
        ),
    decreases file.len(),
{
    let w = file.take(cap);
    if cap > 0 {
        let len = length_of_first_scalar(file);
        if cap < len {
            assert(w[0] == file[0]);
            assert(!valid_first_scalar(w));
            assert(w.skip(0) =~= w);
            assert(w + file.skip(cap) =~= file);
            assert(is_cut(w));
        } else {
            let rest = pop_first_scalar(file);
            lemma_cut_text(rest, cap - len);
            assert(valid_first_scalar(w));
            assert(pop_first_scalar(w) =~= rest.take(cap - len));
            let p = text_prefix(rest.take(cap - len));
            lemma_text_prefix(rest.take(cap - len));
            assert(w.skip(len + p as int) =~= rest.take(cap - len).skip(p as int));
        }
    }
}

} // verus!
