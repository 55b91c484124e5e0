//! What holds of the text building blocks, whatever text they are given.

use vstd::prelude::*;

use crate::text::{
    decimal_text, ends_in, is_blank, is_space, joined, lower_char, numeral, occurs, occurs_at,
    text_less, trimmed, trimmed_end, trimmed_start, upper_char, upper_text,
};

verus! {

/// What a digit is worth.
pub open spec fn digit_worth(c: char) -> int {
    if c <= '9' {
        c as int - '0' as int
    } else {
        c as int - 'a' as int + 10
    }
}

/// What a numeral is worth: each digit counts the radix times what stands behind it.
pub open spec fn worth(s: Seq<char>, radix: int) -> int
    decreases s.len(),
{
    if s.len() == 0 {
        0
    } else {
        worth(s.drop_last(), radix) * radix + digit_worth(s.last())
    }
}

/// A numeral is worth the number it was made of, has no digit too many, and holds
/// digits and lower-case letters only.
pub proof fn law_a_numeral_is_worth_its_number(n: nat, radix: nat)
    requires
        2 <= radix <= 16,
    ensures
        worth(numeral(n, radix), radix as int) == n,
        numeral(n, radix).len() > 0,
        n > 0 ==> numeral(n, radix)[0] != '0',
        forall|i: int|
            0 <= i < numeral(n, radix).len() ==> ('0' <= #[trigger] numeral(n, radix)[i] <= '9'
                || 'a' <= numeral(n, radix)[i] <= 'f'),
    decreases n,
{
    let s = numeral(n, radix);
    if n < radix {
        assert(s.drop_last() =~= Seq::empty());
        assert(worth(s.drop_last(), radix as int) == 0);
        assert(0 * (radix as int) == 0);
    } else {
        let (q, d) = (n / radix, n % radix);
        assert(q < n && q > 0 && n == q * radix + d && d < radix) by (nonlinear_arith)
            requires
                n >= radix,
                radix >= 2,
                q == n / radix,
                d == n % radix,
        ;
        law_a_numeral_is_worth_its_number(q, radix);
        assert(s.drop_last() =~= numeral(q, radix));
        assert forall|i: int| 0 <= i < s.len() implies ('0' <= #[trigger] s[i] <= '9' || 'a' <= s[i]
            <= 'f') by {
            if i < s.len() - 1 {
                assert(s[i] == numeral(q, radix)[i]);
            }
        }
        assert(s[0] == numeral(q, radix)[0]);
    }
}

/// Two numbers have one decimal numeral only if they are one.
pub proof fn law_decimals_tell_numbers_apart(m: nat, n: nat)
    requires
        decimal_text(m) == decimal_text(n),
    ensures
        m == n,
{
    law_a_numeral_is_worth_its_number(m, 10);
    law_a_numeral_is_worth_its_number(n, 10);
}

/// Trimming takes white space off both ends, all of it, and nothing else.
pub proof fn law_trimming_takes_only_white_space(s: Seq<char>)
    ensures
        exists|before: Seq<char>, after: Seq<char>|
            is_blank(before) && is_blank(after) && s == #[trigger] (before + trimmed(s) + after),
        trimmed(s).len() > 0 ==> !is_space(trimmed(s)[0]) && !is_space(trimmed(s).last()),
        trimmed(s).len() == 0 <==> is_blank(s),
{
    let before = lemma_start(s);
    let mid = trimmed_start(s);
    let after = lemma_end(mid);
    assert(s =~= before + trimmed(s) + after);
    let out = trimmed(s);
    if out.len() > 0 {
        assert(out[0] == mid[0]);
    } else {
        assert forall|i: int| 0 <= i < s.len() implies is_space(#[trigger] s[i]) by {
            if i < before.len() {
                assert(s[i] == before[i]);
            } else {
                assert(s[i] == after[i - before.len()]);
            }
        }
    }
    if is_blank(s) && out.len() > 0 {
        assert(s[before.len() as int] == out[0]);
    }
}

proof fn lemma_start(s: Seq<char>) -> (before: Seq<char>)
    ensures
        is_blank(before),
        s == before + trimmed_start(s),
        trimmed_start(s).len() > 0 ==> !is_space(trimmed_start(s)[0]),
    decreases s.len(),
{
    if s.len() > 0 && is_space(s[0]) {
        let rest = lemma_start(s.skip(1));
        let before = seq![s[0]] + rest;
        assert(s =~= before + trimmed_start(s)) by {
            assert(s =~= seq![s[0]] + s.skip(1));
        }
        before
    } else {
        assert(s =~= Seq::<char>::empty() + s);
        Seq::empty()
    }
}

proof fn lemma_end(s: Seq<char>) -> (after: Seq<char>)
    ensures
        is_blank(after),
        s == trimmed_end(s) + after,
        trimmed_end(s).len() > 0 ==> !is_space(trimmed_end(s).last()),
    decreases s.len(),
{
    if s.len() > 0 && is_space(s.last()) {
        let rest = lemma_end(s.drop_last());
        let after = rest.push(s.last());
        assert(s =~= trimmed_end(s) + after) by {
            assert(s =~= s.drop_last().push(s.last()));
        }
        after
    } else {
        assert(s =~= s + Seq::<char>::empty());
        Seq::empty()
    }
}

/// Joining loses no piece: one piece is itself, and two lists joined are joined with
/// the separator between them.
pub proof fn law_joining_keeps_every_piece(
    a: Seq<Seq<char>>,
    b: Seq<Seq<char>>,
    piece: Seq<char>,
    sep: Seq<char>,
)
    ensures
        joined(Seq::empty(), sep).len() == 0,
        joined(seq![piece], sep) == piece,
        a.len() > 0 && b.len() > 0 ==> joined(a + b, sep) == joined(a, sep) + sep + joined(b, sep),
    decreases b.len(),
{
    if a.len() > 0 && b.len() > 0 {
        let head = b.drop_last();
        assert((a + b).drop_last() =~= a + head);
        assert((a + b).last() == b.last());
        if b.len() == 1 {
            assert(a + head =~= a);
        } else {
            law_joining_keeps_every_piece(a, head, piece, sep);
            assert(joined(a, sep) + sep + joined(head, sep) + sep + b.last() =~= joined(a, sep) + sep
                + (joined(head, sep) + sep + b.last()));
        }
    }
}

/// One text stands before another exactly where the first character that differs is
/// smaller, or where it is a proper beginning of the other.
pub proof fn law_texts_are_ordered_by_their_first_difference(a: Seq<char>, b: Seq<char>)
    ensures
        text_less(a, b) <==> exists|k: int| #[trigger] differ_at(a, b, k),
    decreases a.len(),
{
    if b.len() > 0 && a.len() > 0 && a[0] == b[0] {
        law_texts_are_ordered_by_their_first_difference(a.skip(1), b.skip(1));
        if text_less(a, b) {
            let k = choose|k: int| #[trigger] differ_at(a.skip(1), b.skip(1), k);
            assert(a.take(k + 1) =~= seq![a[0]] + a.skip(1).take(k));
            assert(b.take(k + 1) =~= seq![b[0]] + b.skip(1).take(k));
            assert(differ_at(a, b, k + 1));
        }
        if exists|k: int| #[trigger] differ_at(a, b, k) {
            let k = choose|k: int| #[trigger] differ_at(a, b, k);
            assert(k > 0);
            assert(a.skip(1).take(k - 1) =~= a.take(k).skip(1));
            assert(b.skip(1).take(k - 1) =~= b.take(k).skip(1));
            assert(differ_at(a.skip(1), b.skip(1), k - 1));
        }
    } else if b.len() > 0 {
        assert(a.take(0) =~= b.take(0));
        if text_less(a, b) {
            assert(differ_at(a, b, 0));
        }
        if exists|k: int| #[trigger] differ_at(a, b, k) {
            let k = choose|k: int| #[trigger] differ_at(a, b, k);
            if k > 0 {
                assert(a.take(k)[0] == b.take(k)[0]);
            }
        }
    }
}

/// Whether two texts agree up to `k`, and there the first ends or has the smaller
/// character.
pub open spec fn differ_at(a: Seq<char>, b: Seq<char>, k: int) -> bool {
    &&& 0 <= k <= a.len()
    &&& k < b.len()
    &&& a.take(k) == b.take(k)
    &&& k == a.len() || a[k] < b[k]
}

/// Raising a letter's case undoes lowering it, and leaves everything else as it is.
pub proof fn law_only_letters_change_case(c: char)
    ensures
        'A' <= c <= 'Z' ==> 'a' <= lower_char(c) <= 'z' && upper_char(lower_char(c)) == c
            && upper_char(c) == c,
        'a' <= c <= 'z' ==> 'A' <= upper_char(c) <= 'Z' && lower_char(upper_char(c)) == c
            && lower_char(c) == c,
        !('A' <= c <= 'Z') && !('a' <= c <= 'z') ==> upper_char(c) == c && lower_char(c) == c,
{
}

/// A text is raised letter by letter.
pub proof fn law_texts_are_raised_letter_by_letter(a: Seq<char>, c: char)
    ensures
        upper_text(a).len() == a.len(),
        upper_text(a.push(c)) == upper_text(a).push(upper_char(c)),
        upper_text(upper_text(a)) == upper_text(a),
{
    assert(upper_text(a.push(c)) =~= upper_text(a).push(upper_char(c)));
    assert forall|i: int| 0 <= i < a.len() implies upper_text(upper_text(a))[i] == upper_text(
        a,
    )[i] by {
        law_only_letters_change_case(a[i]);
    }
    assert(upper_text(upper_text(a)) =~= upper_text(a));
}

/// A text occurs where something in front of it and something behind it make up the
/// whole, and ends a text where nothing is behind it.
pub proof fn law_an_occurrence_has_a_front_and_a_back(
    front: Seq<char>,
    s: Seq<char>,
    back: Seq<char>,
    whole: Seq<char>,
)
    ensures
        occurs(front + s + back, s),
        ends_in(front + s, s),
        occurs(whole, s) ==> exists|a: Seq<char>, b: Seq<char>| whole == #[trigger] (a + s + b),
        ends_in(whole, s) ==> exists|a: Seq<char>| whole == #[trigger] (a + s),
{
    let all = front + s + back;
    let at = front.len() as int;
    assert(all.subrange(at, at + s.len()) =~= s);
    assert(occurs_at(all, s, at));
    let short = front + s;
    assert(short.subrange(at, short.len() as int) =~= s);
    if occurs(whole, s) {
        let k = choose|k: int| occurs_at(whole, s, k);
        assert(whole =~= whole.take(k) + s + whole.skip(k + s.len()));
    }
    if ends_in(whole, s) {
        let k = whole.len() - s.len();
        assert(whole =~= whole.take(k) + s);
    }
}

} // verus!
