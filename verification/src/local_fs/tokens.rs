//! Why tokens tell mutations apart: the hash steps behind a token lose nothing
//! of four neighbouring bytes.

use vstd::bytes::{
    lemma_auto_spec_u64_to_from_le_bytes, spec_u64_from_le_bytes, spec_u64_to_le_bytes,
    spec_u64_to_le_bytes_to_open,
};
use vstd::prelude::*;

use crate::local_fs::bytes::fnv1a_hash;
use crate::local_fs::provider::{stamp_of, tmp_name_of, LocalFsView};
use crate::seam::error::ErrorCode;
use crate::seam::fs::{VersionToken, WriteGuard};
use crate::text::numeral;
use crate::text_laws::law_a_numeral_is_worth_its_number;

verus! {

// ---------------------------------------------------------------------------
// One step of the hash
// ---------------------------------------------------------------------------

/// What multiplying by the prime comes to.
proof fn lemma_product(x: u64)
    ensures
        x.wrapping_mul(0x0000_0100_0000_01b3) as int == (x * 0x100_0000_01b3)
            % 0x1_0000_0000_0000_0000,
{
}

/// Multiplying by the prime loses nothing: the prime has an inverse.
proof fn lemma_multiplied(x: u64, y: u64)
    requires
        x != y,
    ensures
        x.wrapping_mul(0x0000_0100_0000_01b3) != y.wrapping_mul(0x0000_0100_0000_01b3),
{
    lemma_product(x);
    lemma_product(y);
    if x.wrapping_mul(0x0000_0100_0000_01b3) == y.wrapping_mul(0x0000_0100_0000_01b3) {
        let (a, b) = (x as int, y as int);
        let p: int = 0x100_0000_01b3;
        let whole: int = 0x1_0000_0000_0000_0000;
        let inverse: int = 0xce96_5057_aff6_957b;
        let over: int = 887285111055;
        let m: int = (a * p) / whole - (b * p) / whole;
        vstd::arithmetic::div_mod::lemma_fundamental_div_mod(a * p, whole);
        vstd::arithmetic::div_mod::lemma_fundamental_div_mod(b * p, whole);
        assert((a - b) * p == m * whole) by (nonlinear_arith)
            requires
                a * p == whole * ((a * p) / whole) + (a * p) % whole,
                b * p == whole * ((b * p) / whole) + (b * p) % whole,
                (a * p) % whole == (b * p) % whole,
                m == (a * p) / whole - (b * p) / whole,
        ;
        assert(p * inverse == 1 + over * whole);
        let t: int = m * inverse - over * (a - b);
        assert(a - b == t * whole) by (nonlinear_arith)
            requires
                (a - b) * p == m * whole,
                p * inverse == 1 + over * whole,
                t == m * inverse - over * (a - b),
        ;
        assert(t == 0) by (nonlinear_arith)
            requires
                a - b == t * whole,
                -whole < a - b < whole,
                whole == 0x1_0000_0000_0000_0000int,
        ;
    }
}

/// Mixing a byte in changes only the lowest byte of a hash.
proof fn lemma_mixed(h: u64, x: u8)
    ensures
        (h ^ (x as u64)) / 256 == h / 256,
{
    let y: u64 = x as u64;
    assert(y < 256);
    assert((h ^ y) / 256 == h / 256) by (bit_vector)
        requires
            y < 256,
    ;
}

/// Mixing the same byte in keeps hashes apart.
proof fn lemma_same_mixed(h: u64, g: u64, x: u64)
    requires
        h != g,
    ensures
        h ^ x != g ^ x,
{
    assert(h != g ==> h ^ x != g ^ x) by (bit_vector);
}

/// Mixing two bytes into one hash keeps them apart.
proof fn lemma_bytes_mixed(h: u64, x: u8, y: u8)
    requires
        x != y,
    ensures
        h ^ (x as u64) != h ^ (y as u64),
{
    let a: u64 = x as u64;
    let b: u64 = y as u64;
    assert(a != b ==> h ^ a != h ^ b) by (bit_vector);
}

// ---------------------------------------------------------------------------
// How far apart two hashes are
// ---------------------------------------------------------------------------

/// Whether two hashes differ by `delta`, up to multiples of two to the fortieth.
spec fn apart(h: u64, g: u64, delta: int) -> bool {
    (h - g - delta) % 0x100_0000_0000 == 0
}

/// The size of a number.
spec fn size(delta: int) -> int {
    if delta < 0 {
        -delta
    } else {
        delta
    }
}

/// Multiplying by the prime, which is 435 up to multiples of two to the fortieth.
proof fn lemma_apart_multiplied(h: u64, g: u64, delta: int)
    requires
        apart(h, g, delta),
    ensures
        apart(
            h.wrapping_mul(0x0000_0100_0000_01b3),
            g.wrapping_mul(0x0000_0100_0000_01b3),
            435 * delta,
        ),
{
    lemma_product(h);
    lemma_product(g);
    let span: int = 0x100_0000_0000;
    let whole: int = 0x1_0000_0000_0000_0000;
    let p: int = 0x100_0000_01b3;
    let (a, b) = (h as int, g as int);
    let k: int = (a - b - delta) / span;
    assert(a - b - delta == k * span);
    let qa: int = (a * p) / whole;
    let qb: int = (b * p) / whole;
    let h2: int = (a * p) % whole;
    let g2: int = (b * p) % whole;
    vstd::arithmetic::div_mod::lemma_fundamental_div_mod(a * p, whole);
    vstd::arithmetic::div_mod::lemma_fundamental_div_mod(b * p, whole);
    let t: int = (a - b) + 435 * k - 0x100_0000 * (qa - qb);
    assert(h2 - g2 - 435 * delta == t * span) by (nonlinear_arith)
        requires
            a * p == whole * qa + h2,
            b * p == whole * qb + g2,
            a - b - delta == k * span,
            p == span + 435,
            whole == 0x100_0000 * span,
            t == (a - b) + 435 * k - 0x100_0000 * (qa - qb),
    ;
    vstd::arithmetic::div_mod::lemma_mod_multiples_basic(t, span);
}

/// Hashes that are not within one lowest byte of each other stay apart, whatever
/// bytes are mixed in.
proof fn lemma_apart_mixed(h: u64, g: u64, delta: int, x: u8, y: u8) -> (next: int)
    requires
        apart(h, g, delta),
        435 <= size(delta) < 0xff_0000_0000,
    ensures
        apart(h ^ (x as u64), g ^ (y as u64), next),
        1 <= size(next) <= size(delta) + 510,
        h ^ (x as u64) != g ^ (y as u64),
{
    lemma_mixed(h, x);
    lemma_mixed(g, y);
    let span: int = 0x100_0000_0000;
    let a: int = (h ^ (x as u64)) as int;
    let b: int = (g ^ (y as u64)) as int;
    let (ha, gb) = (h as int, g as int);
    let next: int = delta + (a - ha) - (b - gb);
    assert(a - b - next == ha - gb - delta);
    if (a - b) % span == 0 {
        // The blocks of 256 agree, so the hashes were within one byte.
        let k: int = (a - b) / span;
        let m: int = (ha - gb - delta) / span;
        assert(a - b == k * span);
        assert(ha - gb - delta == m * span);
        assert(ha - a == ha % 256 - a % 256);
        assert(gb - b == gb % 256 - b % 256);
        assert((a - b) % 256 == 0);
        assert(a % 256 == b % 256);
        assert(ha - gb == k * span + (ha % 256 - gb % 256));
        assert(delta == (k - m) * span + (ha % 256 - gb % 256));
        let d: int = k - m;
        assert(d == 0) by (nonlinear_arith)
            requires
                delta == d * span + (ha % 256 - gb % 256),
                -255 <= ha % 256 - gb % 256 <= 255,
                -0xff_0000_0000int < delta < 0xff_0000_0000int,
                span == 0x100_0000_0000int,
        ;
        assert(false);
    }
    assert(next != 0);
    next
}

/// How far apart hashes can be after so many bytes that differ.
spec fn reach(n: int) -> int {
    if n <= 1 {
        110925
    } else if n == 2 {
        48474225
    } else {
        21086509725
    }
}

/// Up to three bytes after the first that differs, hashes are far apart.
proof fn lemma_apart(a: Seq<u8>, b: Seq<u8>, i: int, k: int) -> (delta: int)
    requires
        0 <= i < k <= i + 3,
        k <= a.len(),
        k <= b.len(),
        a.take(i) == b.take(i),
        a[i] != b[i],
    ensures
        apart(fnv1a_hash(a.take(k)), fnv1a_hash(b.take(k)), delta),
        435 <= size(delta) <= reach(k - i),
    decreases k,
{
    assert(a.take(k).drop_last() =~= a.take(k - 1));
    assert(b.take(k).drop_last() =~= b.take(k - 1));
    assert(a.take(k).last() == a[k - 1] && b.take(k).last() == b[k - 1]);
    let h = fnv1a_hash(a.take(k - 1));
    let g = fnv1a_hash(b.take(k - 1));
    let x = a[k - 1];
    let y = b[k - 1];
    if k == i + 1 {
        assert(h == g);
        lemma_mixed(h, x);
        lemma_mixed(h, y);
        lemma_bytes_mixed(h, x, y);
        let delta: int = (h ^ (x as u64)) - (g ^ (y as u64));
        assert(apart(h ^ (x as u64), g ^ (y as u64), delta));
        assert(1 <= size(delta) <= 255);
        lemma_apart_multiplied(h ^ (x as u64), g ^ (y as u64), delta);
        435 * delta
    } else {
        let before = lemma_apart(a, b, i, k - 1);
        let delta = lemma_apart_mixed(h, g, before, x, y);
        lemma_apart_multiplied(h ^ (x as u64), g ^ (y as u64), delta);
        435 * delta
    }
}

/// Hashes of bytes that differ within four neighbours differ.
proof fn lemma_differ(a: Seq<u8>, b: Seq<u8>, i: int, k: int)
    requires
        0 <= i < k <= a.len(),
        a.len() == b.len(),
        a.take(i) == b.take(i),
        a[i] != b[i],
        forall|j: int| i + 4 <= j < a.len() ==> a[j] == b[j],
    ensures
        fnv1a_hash(a.take(k)) != fnv1a_hash(b.take(k)),
    decreases k,
{
    assert(a.take(k).drop_last() =~= a.take(k - 1));
    assert(b.take(k).drop_last() =~= b.take(k - 1));
    assert(a.take(k).last() == a[k - 1] && b.take(k).last() == b[k - 1]);
    let h = fnv1a_hash(a.take(k - 1));
    let g = fnv1a_hash(b.take(k - 1));
    let x = a[k - 1];
    let y = b[k - 1];
    if k == i + 1 {
        lemma_bytes_mixed(h, x, y);
    } else if k <= i + 4 {
        let delta = lemma_apart(a, b, i, k - 1);
        let next = lemma_apart_mixed(h, g, delta, x, y);
    } else {
        lemma_differ(a, b, i, k - 1);
        lemma_same_mixed(h, g, x as u64);
    }
    lemma_multiplied(h ^ (x as u64), g ^ (y as u64));
}

/// The first place where two texts of one length differ.
proof fn lemma_first_difference(a: Seq<u8>, b: Seq<u8>, n: int) -> (i: int)
    requires
        a.len() == b.len(),
        0 <= n <= a.len(),
        a.take(n) != b.take(n),
    ensures
        0 <= i < n,
        a[i] != b[i],
        a.take(i) == b.take(i),
    decreases n,
{
    if n == 0 {
        assert(a.take(0) =~= b.take(0));
        0
    } else if a.take(n - 1) == b.take(n - 1) {
        if a[n - 1] == b[n - 1] {
            assert(a.take(n) =~= a.take(n - 1).push(a[n - 1]));
            assert(b.take(n) =~= b.take(n - 1).push(b[n - 1]));
        }
        n - 1
    } else {
        lemma_first_difference(a, b, n - 1)
    }
}

// ---------------------------------------------------------------------------
// Laws
// ---------------------------------------------------------------------------

/// Two byte strings of one length that differ, and only within four neighbouring
/// bytes, have different hashes: such paths are never one file by their key.
pub proof fn law_near_bytes_hash_apart(a: Seq<u8>, b: Seq<u8>, from: int)
    requires
        a.len() == b.len(),
        a != b,
        forall|j: int| 0 <= j < a.len() && !(from <= j < from + 4) ==> a[j] == b[j],
    ensures
        fnv1a_hash(a) != fnv1a_hash(b),
{
    assert(a.take(a.len() as int) =~= a);
    assert(b.take(b.len() as int) =~= b);
    let i = lemma_first_difference(a, b, a.len() as int);
    assert(from <= i < from + 4);
    lemma_differ(a, b, i, a.len() as int);
}

/// The tokens of one instance tell its mutations apart: two version numbers that
/// differ, in their low thirty-two bits only, have different tokens. So no two of
/// the first four thousand million mutations share one.
pub proof fn law_tokens_tell_mutations_apart(nonce: u64, first: u64, second: u64)
    requires
        first != second,
        first / 0x1_0000_0000 == second / 0x1_0000_0000,
    ensures
        stamp_of(nonce, first) != stamp_of(nonce, second),
{
    let a = spec_u64_to_le_bytes(first);
    let b = spec_u64_to_le_bytes(second);
    lemma_auto_spec_u64_to_from_le_bytes();
    spec_u64_to_le_bytes_to_open(first);
    spec_u64_to_le_bytes_to_open(second);
    assert(spec_u64_from_le_bytes(a) != spec_u64_from_le_bytes(b));
    assert((first >> 32) == (second >> 32)) by (bit_vector)
        requires
            first / 0x1_0000_0000u64 == second / 0x1_0000_0000u64,
    ;
    assert(first >> 40 == second >> 40 && first >> 48 == second >> 48 && first >> 56 == second
        >> 56) by (bit_vector)
        requires
            first >> 32 == second >> 32,
    ;
    assert forall|j: int| 0 <= j < a.len() && !(0 <= j < 4) implies a[j] == b[j] by {
        assert(j == 4 || j == 5 || j == 6 || j == 7);
    }
    law_near_bytes_hash_apart(a, b, 0);
    let n = fnv1a_hash(spec_u64_to_le_bytes(nonce));
    let (x, y) = (fnv1a_hash(a), fnv1a_hash(b));
    assert(x != y ==> n ^ x != n ^ y) by (bit_vector);
}

/// Whether every number handed out is below the next one, and that is below two to
/// the thirty-second.
pub open spec fn counted(fs: LocalFsView) -> bool {
    &&& fs.next_version < 0x1_0000_0000
    &&& forall|i: int| 0 <= i < fs.issued.len() ==> #[trigger] fs.issued[i] < fs.next_version
}

/// A mutation spends the next number and no other, and numbers stay counted as it
/// begins and lands.
pub proof fn law_version_numbers_only_grow(fs: LocalFsView, path: Seq<u8>)
    requires
        counted(fs),
    ensures
        fs.begun().next_version == fs.next_version + 1,
        fs.begun().issued == fs.issued,
        fs.begun().versions == fs.versions,
        fs.begun().nonce == fs.nonce,
        fs.next_version < 0xffff_ffff ==> counted(fs.begun().landed(path, fs.next_version)),
{
    let after = fs.begun().landed(path, fs.next_version);
    assert forall|i: int| 0 <= i < after.issued.len() && fs.next_version < 0xffff_ffff implies (
    #[trigger] after.issued[i]) < after.next_version by {
        if i < fs.issued.len() {
            assert(after.issued[i] == fs.issued[i]);
        }
    }
}

/// Once a later mutation of a path landed, every token handed out before is refused
/// there as stale, whichever mutation it came from; the new one is accepted.
pub proof fn law_every_earlier_token_is_stale(fs: LocalFsView, path: Seq<u8>, i: int, exists: bool)
    requires
        counted(fs),
        0 <= i < fs.issued.len(),
    ensures
        ({
            let after = fs.begun().landed(path, fs.next_version);
            let earlier = VersionToken(stamp_of(fs.nonce, fs.issued[i]));
            let current = VersionToken(stamp_of(fs.nonce, fs.next_version));
            &&& earlier != current
            &&& after.guard_verdict(path, Some(WriteGuard::ReplaceAtVersion(earlier)), exists)
                matches Err(e) && e.code == ErrorCode::StaleVersion
            &&& after.guard_verdict(path, Some(WriteGuard::ReplaceAtVersion(current)), exists) is Ok
        }),
{
    let first = fs.issued[i];
    let second = fs.next_version;
    assert(first / 0x1_0000_0000 == 0 && second / 0x1_0000_0000 == 0);
    law_tokens_tell_mutations_apart(fs.nonce, first, second);
    let after = fs.begun().landed(path, second);
    assert(after.issued[i] == first);
}

/// A token that is stale for a path stays stale there, whatever lands elsewhere or
/// there: no number is spent twice.
pub proof fn law_a_stale_token_stays_stale(
    fs: LocalFsView,
    path: Seq<u8>,
    other: Seq<u8>,
    i: int,
    exists: bool,
)
    requires
        counted(fs),
        0 <= i < fs.issued.len(),
        fs.versions.contains_key(path),
        fs.versions[path] < fs.next_version,
        fs.versions[path] != fs.issued[i],
    ensures
        fs.begun().landed(other, fs.next_version).guard_verdict(
            path,
            Some(WriteGuard::ReplaceAtVersion(VersionToken(stamp_of(fs.nonce, fs.issued[i])))),
            exists,
        ) matches Err(e) && e.code == ErrorCode::StaleVersion,
{
    let after = fs.begun().landed(other, fs.next_version);
    let first = fs.issued[i];
    assert(after.issued[i] == first);
    let current = after.versions[path];
    assert(first / 0x1_0000_0000 == 0 && current / 0x1_0000_0000 == 0);
    law_tokens_tell_mutations_apart(fs.nonce, first, current);
}

/// A temporary sibling is told from the file it will replace and from the siblings of
/// other mutations: its name keeps the file's name, and two names of one file are one
/// only where they were made for one version number.
pub proof fn law_temporary_names_are_told_apart(
    name: Seq<char>,
    token: u64,
    thread: u64,
    counter: u64,
    other_token: u64,
    other_thread: u64,
    other: u64,
)
    ensures
        ({
            let a = tmp_name_of(name, token, thread, counter);
            let b = tmp_name_of(name, other_token, other_thread, other);
            &&& a != name
            &&& a.len() > name.len()
            &&& a[0] == '.'
            &&& a.subrange(1, 1 + name.len() as int) == name
            &&& counter != other ==> a != b
        }),
{
    reveal_strlit(".");
    reveal_strlit(".harnless-tmp-");
    reveal_strlit("-");
    let a = tmp_name_of(name, token, thread, counter);
    let b = tmp_name_of(name, other_token, other_thread, other);
    let x = numeral(counter as nat, 16);
    let y = numeral(other as nat, 16);
    assert(a.subrange(1, 1 + name.len() as int) =~= name);
    law_a_numeral_is_worth_its_number(counter as nat, 16);
    law_a_numeral_is_worth_its_number(other as nat, 16);
    if a == b {
        let n = a.len() as int;
        assert(a.skip(n - x.len()) =~= x);
        assert(b.skip(n - y.len()) =~= y);
        assert(a[n - x.len() - 1] == '-');
        assert(b[n - y.len() - 1] == '-');
        if x.len() < y.len() {
            assert(y[y.len() - x.len() - 1] == b[n - x.len() - 1]);
        } else if y.len() < x.len() {
            assert(x[x.len() - y.len() - 1] == a[n - y.len() - 1]);
        }
        assert(x == y);
    }
}

} // verus!
