//! Text and byte building blocks shared by every other module: joining,
//! searching, trimming, numerals, and comparison, each stated over the
//! mathematical sequence of characters (or bytes) it works on.

use vstd::prelude::*;
use vstd::utf8::{decode_utf8, is_ascii_chars, valid_utf8};

verus! {

// ---------------------------------------------------------------------------
// Outside text functions
// ---------------------------------------------------------------------------

/// `std::string::String::push`: appends one character.
pub assume_specification[ std::string::String::push ](s: &mut String, c: char)
    ensures
        final(s)@ == old(s)@.push(c),
;

/// Whether a text holds nothing but printable ASCII, and no quote or backslash.
pub open spec fn unescaped(s: Seq<char>) -> bool {
    forall|i: int|
        0 <= i < s.len() ==> ' ' <= #[trigger] s[i] <= '~' && s[i] != '"' && s[i] != '\'' && s[i]
            != '\\'
}

/// The `{:?}` rendering of a text with characters that may be escaped.
pub uninterp spec fn escaped_text(s: Seq<char>) -> Seq<char>;

/// The `{:?}` rendering of a string slice: quoted, with escapes.
pub open spec fn debug_text(s: Seq<char>) -> Seq<char> {
    if unescaped(s) {
        "\""@ + s + "\""@
    } else {
        escaped_text(s)
    }
}

/// The `Debug` impl of `str` (through `format!`). Printable ASCII without quotes and
/// backslashes stands as it is between two quotes; of other text the rendering is a
/// function of it, and which characters are escaped is left to the standard library.
#[verifier::external_body]
pub(crate) fn quoted(s: &str) -> (r: String)
    ensures
        r@ == (if unescaped(s@) {
            "\""@ + s@ + "\""@
        } else {
            escaped_text(s@)
        }),
{
    format!("{s:?}")
}

/// The characters of bytes that are not UTF-8, with replacement characters.
pub uninterp spec fn replaced_text(bytes: Seq<u8>) -> Seq<char>;

/// The characters of a byte string, with a replacement character wherever the
/// bytes are not UTF-8.
pub open spec fn lossy_text(bytes: Seq<u8>) -> Seq<char> {
    if valid_utf8(bytes) {
        decode_utf8(bytes)
    } else {
        replaced_text(bytes)
    }
}

/// `String::from_utf8_lossy`: well-formed UTF-8 comes back as its characters;
/// where the replacement characters stand otherwise is left to the standard
/// library.
#[verifier::external_body]
pub(crate) fn utf8_lossy(bytes: &[u8]) -> (r: String)
    ensures
        r@ == (if valid_utf8(bytes@) {
            decode_utf8(bytes@)
        } else {
            replaced_text(bytes@)
        }),
{
    String::from_utf8_lossy(bytes).into_owned()
}

/// The lower-case form of a text beyond ASCII.
pub uninterp spec fn folded_text(s: Seq<char>) -> Seq<char>;

/// The lower-case form of a text.
pub open spec fn lower_text(s: Seq<char>) -> Seq<char> {
    if is_ascii_chars(s) {
        s.map_values(|c: char| lower_char(c))
    } else {
        folded_text(s)
    }
}

/// `str::to_lowercase`: the Unicode lower-case form, a function of the text.
/// Of ASCII text it is stated in full; the tables for other letters are left to
/// the standard library.
#[verifier::external_body]
pub(crate) fn lowered(s: &str) -> (r: String)
    ensures
        r@ == (if is_ascii_chars(s@) {
            s@.map_values(|c: char| lower_char(c))
        } else {
            folded_text(s@)
        }),
{
    s.to_lowercase()
}

/// `c` with an ASCII upper-case letter turned lower-case.
pub open spec fn lower_char(c: char) -> char {
    if 'A' <= c <= 'Z' {
        (c as u8 + 32) as char
    } else {
        c
    }
}

// ---------------------------------------------------------------------------
// Building text
// ---------------------------------------------------------------------------

/// A copy of `s` as an owned string.
pub fn owned(s: &str) -> (r: String)
    ensures
        r@ == s@,
{
    s.to_owned()
}

/// `a` followed by `b`.
pub fn cat(a: &str, b: &str) -> (r: String)
    ensures
        r@ == a@ + b@,
{
    let mut out = a.to_owned();
    out.append(b);
    out
}

/// Three pieces in a row.
pub fn cat3(a: &str, b: &str, c: &str) -> (r: String)
    ensures
        r@ == a@ + b@ + c@,
{
    let mut out = cat(a, b);
    out.append(c);
    out
}

/// Four pieces in a row.
pub fn cat4(a: &str, b: &str, c: &str, d: &str) -> (r: String)
    ensures
        r@ == a@ + b@ + c@ + d@,
{
    let mut out = cat3(a, b, c);
    out.append(d);
    out
}

/// Five pieces in a row.
pub fn cat5(a: &str, b: &str, c: &str, d: &str, e: &str) -> (r: String)
    ensures
        r@ == a@ + b@ + c@ + d@ + e@,
{
    let mut out = cat4(a, b, c, d);
    out.append(e);
    out
}

/// Seven pieces in a row.
pub fn cat7(a: &str, b: &str, c: &str, d: &str, e: &str, f: &str, g: &str) -> (r: String)
    ensures
        r@ == a@ + b@ + c@ + d@ + e@ + f@ + g@,
{
    let mut out = cat5(a, b, c, d, e);
    out.append(f);
    out.append(g);
    out
}

/// Whether two byte strings are equal.
pub fn same_bytes(a: &[u8], b: &[u8]) -> (r: bool)
    ensures
        r == (a@ == b@),
{
    if a.len() != b.len() {
        return false;
    }
    for i in 0..a.len()
        invariant
            a@.len() == b@.len(),
            forall|k: int| 0 <= k < i ==> a@[k] == b@[k],
    {
        if a[i] != b[i] {
            return false;
        }
    }
    assert(a@ =~= b@);
    true
}

/// Whether two slices hold the same characters.
pub fn same(a: &str, b: &str) -> (r: bool)
    ensures
        r == (a@ == b@),
{
    proof {
        vstd::utf8::encode_utf8_decode_utf8(a@);
        vstd::utf8::encode_utf8_decode_utf8(b@);
    }
    same_bytes(a.as_bytes(), b.as_bytes())
}

/// The characters of `s`.
pub fn chars_of(s: &str) -> (r: Vec<char>)
    ensures
        r@ == s@,
{
    let mut out: Vec<char> = Vec::new();
    for c in it: s.chars()
        invariant
            it.seq() == s@,
            out@ == s@.take(it.index()),
    {
        out.push(c);
    }
    out
}

/// The text made of `cs[from..to]`.
pub fn text_of(cs: &Vec<char>, from: usize, to: usize) -> (r: String)
    requires
        from <= to <= cs@.len(),
    ensures
        r@ == cs@.subrange(from as int, to as int),
{
    let mut out = String::new();
    let mut i: usize = from;
    while i < to
        invariant
            from <= i <= to <= cs@.len(),
            out@ == cs@.subrange(from as int, i as int),
        decreases to - i,
    {
        out.push(cs[i]);
        i = i + 1;
    }
    out
}

// ---------------------------------------------------------------------------
// Searching
// ---------------------------------------------------------------------------

/// Whether `needle` stands in `hay` at position `at`.
pub open spec fn occurs_at<T>(hay: Seq<T>, needle: Seq<T>, at: int) -> bool {
    &&& 0 <= at
    &&& at + needle.len() <= hay.len()
    &&& hay.subrange(at, at + needle.len()) == needle
}

/// Whether `needle` stands anywhere in `hay`.
pub open spec fn occurs<T>(hay: Seq<T>, needle: Seq<T>) -> bool {
    exists|at: int| occurs_at(hay, needle, at)
}

/// Whether `needle` stands in `hay` at position `at`, for characters.
pub fn chars_at(hay: &Vec<char>, needle: &Vec<char>, at: usize) -> (r: bool)
    ensures
        r == occurs_at(hay@, needle@, at as int),
{
    if at > hay.len() || needle.len() > hay.len() - at {
        return false;
    }
    for i in 0..needle.len()
        invariant
            at + needle.len() <= hay.len(),
            forall|k: int| 0 <= k < i ==> hay@[at + k] == needle@[k],
    {
        if hay[at + i] != needle[i] {
            proof {
                assert(hay@.subrange(at as int, at + needle@.len())[i as int] == hay@[at + i]);
            }
            return false;
        }
    }
    assert(hay@.subrange(at as int, at + needle@.len()) =~= needle@);
    true
}

/// Whether `needle` stands anywhere in `hay`.
pub fn contains(hay: &str, needle: &str) -> (r: bool)
    ensures
        r == occurs(hay@, needle@),
{
    let h = chars_of(hay);
    let n = chars_of(needle);
    if n.len() > h.len() {
        return false;
    }
    let last: usize = h.len() - n.len();
    let mut at: usize = 0;
    while at <= last
        invariant
            h@ == hay@,
            n@ == needle@,
            n@.len() <= h@.len(),
            last == h@.len() - n@.len(),
            at <= last + 1,
            forall|k: int| 0 <= k < at ==> !occurs_at(hay@, needle@, k),
        decreases last + 1 - at,
    {
        if chars_at(&h, &n, at) {
            return true;
        }
        if at == last {
            return false;
        }
        at = at + 1;
    }
    false
}

/// Whether `s` starts with `prefix`.
pub fn starts_with(s: &str, prefix: &str) -> (r: bool)
    ensures
        r == occurs_at(s@, prefix@, 0),
{
    let h = chars_of(s);
    let n = chars_of(prefix);
    chars_at(&h, &n, 0)
}

/// Whether `s` ends with `suffix`.
pub open spec fn ends_in(s: Seq<char>, suffix: Seq<char>) -> bool {
    occurs_at(s, suffix, s.len() - suffix.len())
}

/// Whether `s` ends with `suffix`.
pub fn ends_with(s: &str, suffix: &str) -> (r: bool)
    ensures
        r == ends_in(s@, suffix@),
{
    let h = chars_of(s);
    let n = chars_of(suffix);
    if n.len() > h.len() {
        return false;
    }
    chars_at(&h, &n, h.len() - n.len())
}

// ---------------------------------------------------------------------------
// Blank text
// ---------------------------------------------------------------------------

/// The Unicode `White_Space` property.
pub open spec fn is_space(c: char) -> bool {
    ||| '\u{9}' <= c <= '\u{d}'
    ||| c == ' '
    ||| c == '\u{85}'
    ||| c == '\u{a0}'
    ||| c == '\u{1680}'
    ||| '\u{2000}' <= c <= '\u{200a}'
    ||| c == '\u{2028}'
    ||| c == '\u{2029}'
    ||| c == '\u{202f}'
    ||| c == '\u{205f}'
    ||| c == '\u{3000}'
}

/// Whether `c` is white space.
pub fn space(c: char) -> (r: bool)
    ensures
        r == is_space(c),
{
    ('\u{9}' <= c && c <= '\u{d}') || c == ' ' || c == '\u{85}' || c == '\u{a0}' || c
        == '\u{1680}' || ('\u{2000}' <= c && c <= '\u{200a}') || c == '\u{2028}' || c
        == '\u{2029}' || c == '\u{202f}' || c == '\u{205f}' || c == '\u{3000}'
}

/// Whether every character of `s` is white space.
pub open spec fn is_blank(s: Seq<char>) -> bool {
    forall|i: int| 0 <= i < s.len() ==> is_space(#[trigger] s[i])
}

/// Whether `s` holds white space only (or nothing).
pub fn blank(s: &str) -> (r: bool)
    ensures
        r == is_blank(s@),
{
    let cs = chars_of(s);
    for i in 0..cs.len()
        invariant
            cs@ == s@,
            forall|k: int| 0 <= k < i ==> is_space(#[trigger] s@[k]),
    {
        if !space(cs[i]) {
            assert(!is_space(s@[i as int]));
            return false;
        }
    }
    true
}

/// `s` without its leading white space.
pub open spec fn trimmed_start(s: Seq<char>) -> Seq<char>
    decreases s.len(),
{
    if s.len() > 0 && is_space(s[0]) {
        trimmed_start(s.skip(1))
    } else {
        s
    }
}

/// `s` without its trailing white space.
pub open spec fn trimmed_end(s: Seq<char>) -> Seq<char>
    decreases s.len(),
{
    if s.len() > 0 && is_space(s.last()) {
        trimmed_end(s.drop_last())
    } else {
        s
    }
}

/// `s` without white space on either side.
pub open spec fn trimmed(s: Seq<char>) -> Seq<char> {
    trimmed_end(trimmed_start(s))
}

/// `s` without white space on either side.
pub fn trim(s: &str) -> (r: String)
    ensures
        r@ == trimmed(s@),
{
    let cs = chars_of(s);
    let mut from: usize = 0;
    assert(cs@.skip(0) =~= cs@);
    while from < cs.len() && space(cs[from])
        invariant
            from <= cs@.len(),
            trimmed_start(cs@) == trimmed_start(cs@.skip(from as int)),
        decreases cs@.len() - from,
    {
        assert(cs@.skip(from as int).skip(1) =~= cs@.skip(from + 1));
        from = from + 1;
    }
    assert(trimmed_start(cs@) == cs@.skip(from as int));
    let mut to: usize = cs.len();
    assert(cs@.subrange(from as int, to as int) =~= cs@.skip(from as int));
    while from < to && space(cs[to - 1])
        invariant
            from <= to <= cs@.len(),
            trimmed_end(cs@.skip(from as int)) == trimmed_end(
                cs@.subrange(from as int, to as int),
            ),
        decreases to,
    {
        assert(cs@.subrange(from as int, to as int).drop_last() =~= cs@.subrange(
            from as int,
            to - 1,
        ));
        to = to - 1;
    }
    text_of(&cs, from, to)
}

// ---------------------------------------------------------------------------
// Letters, numerals, order
// ---------------------------------------------------------------------------

/// `c` with an ASCII lower-case letter turned upper-case.
pub open spec fn upper_char(c: char) -> char {
    if 'a' <= c <= 'z' {
        (c as u8 - 32) as char
    } else {
        c
    }
}

/// `s` with every ASCII lower-case letter turned upper-case.
pub open spec fn upper_text(s: Seq<char>) -> Seq<char> {
    s.map_values(|c: char| upper_char(c))
}

/// `s` with every ASCII lower-case letter turned upper-case.
pub fn ascii_upper(s: &str) -> (r: String)
    ensures
        r@ == upper_text(s@),
{
    let cs = chars_of(s);
    let mut out = String::new();
    for i in 0..cs.len()
        invariant
            out@ == upper_text(cs@.take(i as int)),
    {
        let c = cs[i];
        if 'a' <= c && c <= 'z' {
            out.push((c as u8 - 32) as char);
        } else {
            out.push(c);
        }
        assert(cs@.take(i + 1) =~= cs@.take(i as int).push(c));
        assert(upper_text(cs@.take(i + 1)) =~= upper_text(cs@.take(i as int)).push(upper_char(c)));
    }
    assert(cs@.take(cs@.len() as int) =~= cs@);
    out
}

/// The character that stands for the digit `d`, lower-case from ten on.
pub open spec fn digit_char(d: nat) -> char {
    if d < 10 {
        (48 + d) as char
    } else {
        (87 + d) as char
    }
}

/// The positional numeral of `n` in base `radix`, without leading zeros.
pub open spec fn numeral(n: nat, radix: nat) -> Seq<char>
    decreases n,
{
    if radix < 2 {
        Seq::empty()
    } else if n < radix {
        seq![digit_char(n)]
    } else {
        proof {
            assert(n / radix < n) by (nonlinear_arith)
                requires
                    n >= radix,
                    radix >= 2,
            ;
        }
        numeral(n / radix, radix).push(digit_char(n % radix))
    }
}

/// The decimal numeral of `n`.
pub open spec fn decimal_text(n: nat) -> Seq<char> {
    numeral(n, 10)
}

fn numeral_of(n: u64, radix: u64) -> (r: String)
    requires
        2 <= radix <= 16,
    ensures
        r@ == numeral(n as nat, radix as nat),
    decreases n,
{
    let low: u64 = n % radix;
    proof {
        assert(low < radix && n / radix <= n && (n >= radix ==> n / radix < n))
            by (nonlinear_arith)
            requires
                2 <= radix <= 16,
                low == n % radix,
        ;
    }
    let shown: u8 = if low < 10 { 48 + low as u8 } else { 87 + low as u8 };
    let c: char = shown as char;
    let mut out = if n < radix { String::new() } else { numeral_of(n / radix, radix) };
    out.push(c);
    proof {
        if n < radix {
            assert(n % radix == n) by (nonlinear_arith)
                requires
                    n < radix,
            ;
            assert(out@ =~= seq![digit_char(n as nat)]);
        }
    }
    out
}

/// The decimal numeral of `n`.
pub fn decimal(n: u64) -> (r: String)
    ensures
        r@ == decimal_text(n as nat),
{
    numeral_of(n, 10)
}

/// The lower-case hexadecimal numeral of `n`.
pub fn hex(n: u64) -> (r: String)
    ensures
        r@ == numeral(n as nat, 16),
{
    numeral_of(n, 16)
}

/// Lexicographic order by code point.
pub open spec fn text_less(a: Seq<char>, b: Seq<char>) -> bool
    decreases a.len(),
{
    if b.len() == 0 {
        false
    } else if a.len() == 0 {
        true
    } else if a[0] == b[0] {
        text_less(a.skip(1), b.skip(1))
    } else {
        a[0] < b[0]
    }
}

/// Whether `a` stands before `b` in lexicographic order.
pub fn less(a: &str, b: &str) -> (r: bool)
    ensures
        r == text_less(a@, b@),
{
    let x = chars_of(a);
    let y = chars_of(b);
    let mut i: usize = 0;
    assert(x@.skip(0) =~= x@);
    assert(y@.skip(0) =~= y@);
    while i < x.len() && i < y.len() && x[i] == y[i]
        invariant
            i <= x@.len(),
            i <= y@.len(),
            text_less(x@, y@) == text_less(x@.skip(i as int), y@.skip(i as int)),
        decreases x@.len() - i,
    {
        assert(x@.skip(i as int).skip(1) =~= x@.skip(i + 1));
        assert(y@.skip(i as int).skip(1) =~= y@.skip(i + 1));
        i = i + 1;
    }
    if i >= y.len() {
        false
    } else if i >= x.len() {
        true
    } else {
        x[i] < y[i]
    }
}

// ---------------------------------------------------------------------------
// Lists of text
// ---------------------------------------------------------------------------

/// The character sequences of a list of strings.
pub open spec fn texts(v: Seq<String>) -> Seq<Seq<char>> {
    v.map_values(|s: String| s@)
}

/// The pieces in order with `sep` between neighbours.
pub open spec fn joined(parts: Seq<Seq<char>>, sep: Seq<char>) -> Seq<char>
    decreases parts.len(),
{
    if parts.len() == 0 {
        Seq::empty()
    } else if parts.len() == 1 {
        parts[0]
    } else {
        joined(parts.drop_last(), sep) + sep + parts.last()
    }
}

/// The pieces in order with `sep` between neighbours.
pub fn join(parts: &Vec<String>, sep: &str) -> (r: String)
    ensures
        r@ == joined(texts(parts@), sep@),
{
    let mut out = String::new();
    for i in 0..parts.len()
        invariant
            out@ == joined(texts(parts@).take(i as int), sep@),
    {
        let ghost before = texts(parts@).take(i as int);
        let ghost after = texts(parts@).take(i + 1);
        assert(after.drop_last() =~= before);
        if i > 0 {
            out.append(sep);
        }
        out.append(parts[i].as_str());
        assert(out@ =~= joined(after, sep@));
    }
    assert(texts(parts@).take(parts@.len() as int) =~= texts(parts@));
    out
}

/// The `{:?}` rendering of a list of strings.
pub open spec fn debug_texts(parts: Seq<Seq<char>>) -> Seq<char> {
    "["@ + joined(parts.map_values(|s: Seq<char>| debug_text(s)), ", "@) + "]"@
}

/// The `{:?}` rendering of a list of strings.
pub fn quoted_list(parts: &Vec<String>) -> (r: String)
    ensures
        r@ == debug_texts(texts(parts@)),
{
    let mut shown: Vec<String> = Vec::new();
    for i in 0..parts.len()
        invariant
            shown@.len() == i,
            forall|k: int| 0 <= k < i ==> (#[trigger] shown@[k])@ == debug_text(parts@[k]@),
    {
        shown.push(quoted(parts[i].as_str()));
    }
    assert(texts(shown@) =~= texts(parts@).map_values(|s: Seq<char>| debug_text(s)));
    cat3("[", join(&shown, ", ").as_str(), "]")
}

/// The characters of an optional string.
pub open spec fn text_opt(v: Option<String>) -> Option<Seq<char>> {
    match v {
        Some(s) => Some(s@),
        None => None,
    }
}

/// The `{:?}` rendering of an optional string.
pub open spec fn debug_text_opt(v: Option<Seq<char>>) -> Seq<char> {
    match v {
        Some(s) => "Some("@ + debug_text(s) + ")"@,
        None => "None"@,
    }
}

/// The `{:?}` rendering of an optional string.
pub fn quoted_opt(v: &Option<String>) -> (r: String)
    ensures
        r@ == debug_text_opt(text_opt(*v)),
{
    match v {
        Some(s) => cat3("Some(", quoted(s.as_str()).as_str(), ")"),
        None => owned("None"),
    }
}

// ---------------------------------------------------------------------------
// Lists in order
// ---------------------------------------------------------------------------

/// `s` put into an ordered list, behind what does not stand after it.
pub open spec fn placed(ordered: Seq<Seq<char>>, s: Seq<char>) -> Seq<Seq<char>>
    decreases ordered.len(),
{
    if ordered.len() == 0 || !text_less(s, ordered.last()) {
        ordered.push(s)
    } else {
        placed(ordered.drop_last(), s).push(ordered.last())
    }
}

/// The texts of a list, in lexicographic order.
pub open spec fn in_order(v: Seq<Seq<char>>) -> Seq<Seq<char>>
    decreases v.len(),
{
    if v.len() == 0 {
        Seq::empty()
    } else {
        placed(in_order(v.drop_last()), v.last())
    }
}

/// Placing is inserting before the texts at the end that stand after it.
proof fn lemma_placed(ordered: Seq<Seq<char>>, s: Seq<char>, at: int)
    requires
        0 <= at <= ordered.len(),
        forall|k: int| at <= k < ordered.len() ==> text_less(s, #[trigger] ordered[k]),
        at > 0 ==> !text_less(s, ordered[at - 1]),
    ensures
        placed(ordered, s) == ordered.insert(at, s),
    decreases ordered.len(),
{
    if at == ordered.len() {
        assert(ordered.insert(at, s) =~= ordered.push(s));
    } else {
        assert(text_less(s, ordered[ordered.len() - 1]));
        lemma_placed(ordered.drop_last(), s, at);
        assert(ordered.drop_last().insert(at, s).push(ordered.last()) =~= ordered.insert(at, s));
    }
}

/// The texts of a list, in lexicographic order.
pub fn sort(v: &Vec<String>) -> (r: Vec<String>)
    ensures
        texts(r@) == in_order(texts(v@)),
{
    let ghost all = texts(v@);
    let mut out: Vec<String> = Vec::new();
    assert(all.take(0) =~= Seq::empty());
    assert(texts(out@) =~= Seq::empty());
    for i in 0..v.len()
        invariant
            all == texts(v@),
            texts(out@) == in_order(all.take(i as int)),
    {
        assert(all.take(i + 1).drop_last() =~= all.take(i as int));
        let s = v[i].clone();
        let ghost before = texts(out@);
        let mut at: usize = out.len();
        while at > 0 && less(s.as_str(), out[at - 1].as_str())
            invariant
                at <= out@.len(),
                before == texts(out@),
                forall|k: int| at <= k < before.len() ==> text_less(s@, #[trigger] before[k]),
            decreases at,
        {
            assert(before[at - 1] == out@[at - 1]@);
            at = at - 1;
        }
        proof {
            if at > 0 {
                assert(before[at - 1] == out@[at - 1]@);
            }
            lemma_placed(before, s@, at as int);
        }
        out.insert(at, s);
        assert(texts(out@) =~= before.insert(at as int, s@));
    }
    assert(all.take(v@.len() as int) =~= all);
    out
}

/// What does not stand before in turn does not stand before at all.
pub proof fn lemma_not_less_transitive(a: Seq<char>, b: Seq<char>, c: Seq<char>)
    requires
        !text_less(b, a),
        !text_less(c, b),
    ensures
        !text_less(c, a),
    decreases a.len(),
{
    if a.len() > 0 && b.len() > 0 && c.len() > 0 && a[0] == b[0] && b[0] == c[0] {
        lemma_not_less_transitive(a.skip(1), b.skip(1), c.skip(1));
    }
}

/// Of two texts at most one stands before the other.
pub proof fn lemma_less_asymmetric(a: Seq<char>, b: Seq<char>)
    requires
        text_less(a, b),
    ensures
        !text_less(b, a),
    decreases a.len(),
{
    if a.len() > 0 && b.len() > 0 && a[0] == b[0] {
        lemma_less_asymmetric(a.skip(1), b.skip(1));
    }
}

/// Whether no text of a list stands before one in front of it.
pub open spec fn ordered(v: Seq<Seq<char>>) -> bool {
    forall|i: int, j: int| 0 <= i < j < v.len() ==> !text_less(#[trigger] v[j], #[trigger] v[i])
}

/// Ordering a list keeps its texts and puts each behind those before it.
pub proof fn law_ordering_keeps_and_orders(v: Seq<Seq<char>>)
    ensures
        ordered(in_order(v)),
        in_order(v).to_multiset() == v.to_multiset(),
        in_order(v).len() == v.len(),
    decreases v.len(),
{
    broadcast use vstd::seq_lib::group_to_multiset_ensures;

    if v.len() > 0 {
        law_ordering_keeps_and_orders(v.drop_last());
        lemma_placed_ordered(in_order(v.drop_last()), v.last());
        assert(v.drop_last().push(v.last()) =~= v);
    } else {
        assert(v =~= Seq::empty());
    }
}

proof fn lemma_placed_ordered(v: Seq<Seq<char>>, s: Seq<char>)
    requires
        ordered(v),
    ensures
        ordered(placed(v, s)),
        placed(v, s).to_multiset() == v.to_multiset().insert(s),
        placed(v, s).len() == v.len() + 1,
        placed(v, s).len() > 0,
        forall|i: int|
            0 <= i < placed(v, s).len() ==> #[trigger] placed(v, s)[i] == s || v.contains(
                placed(v, s)[i],
            ),
    decreases v.len(),
{
    broadcast use vstd::seq_lib::group_to_multiset_ensures;

    let out = placed(v, s);
    if v.len() == 0 || !text_less(s, v.last()) {
        assert forall|i: int, j: int| 0 <= i < j < out.len() implies !text_less(
            #[trigger] out[j],
            #[trigger] out[i],
        ) by {
            if j == v.len() && i < v.len() - 1 {
                assert(!text_less(v[v.len() - 1], v[i]));
                lemma_not_less_transitive(v[i], v[v.len() - 1], s);
            }
        }
        assert forall|i: int| 0 <= i < out.len() implies #[trigger] out[i] == s || v.contains(
            out[i],
        ) by {
            if i < v.len() {
                assert(v[i] == out[i]);
            }
        }
    } else {
        let short = v.drop_last();
        let last = v.last();
        assert forall|i: int, j: int| 0 <= i < j < short.len() implies !text_less(
            #[trigger] short[j],
            #[trigger] short[i],
        ) by {
            assert(short[i] == v[i] && short[j] == v[j]);
        }
        lemma_placed_ordered(short, s);
        lemma_less_asymmetric(s, last);
        let inner = placed(short, s);
        assert forall|i: int| 0 <= i < inner.len() implies !text_less(
            last,
            #[trigger] inner[i],
        ) by {
            if inner[i] != s {
                let k = choose|k: int| 0 <= k < short.len() && short[k] == inner[i];
                assert(!text_less(v[v.len() - 1], v[k]));
            }
        }
        assert forall|i: int, j: int| 0 <= i < j < out.len() implies !text_less(
            #[trigger] out[j],
            #[trigger] out[i],
        ) by {
            if j < inner.len() {
                assert(out[i] == inner[i] && out[j] == inner[j]);
            } else {
                assert(out[i] == inner[i]);
            }
        }
        assert(v.to_multiset() =~= short.to_multiset().insert(last)) by {
            assert(short.push(last) =~= v);
        }
        assert(out.to_multiset() =~= inner.to_multiset().insert(last));
        assert(out.to_multiset() =~= v.to_multiset().insert(s));
        assert forall|i: int| 0 <= i < out.len() implies #[trigger] out[i] == s || v.contains(
            out[i],
        ) by {
            if i < inner.len() {
                assert(out[i] == inner[i]);
                if inner[i] != s {
                    let k = choose|k: int| 0 <= k < short.len() && short[k] == inner[i];
                    assert(v[k] == out[i]);
                }
            } else {
                assert(v[v.len() - 1] == out[i]);
            }
        }
    }
}

} // verus!
