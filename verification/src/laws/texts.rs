//! What the operations on texts do.

use vstd::prelude::*;

use crate::text;

verus! {

/// The number that a digit stands for.
pub open spec fn digit_value(c: char) -> int {
    if '0' <= c <= '9' {
        c as int - '0' as int
    } else {
        c as int - 'A' as int + 10
    }
}

/// The number that some digits stand for, the highest first.
pub open spec fn value(digits: Seq<char>, base: nat) -> int
    decreases digits.len(),
{
    if digits.len() == 0 {
        0
    } else {
        value(digits.drop_last(), base) * base + digit_value(digits.last())
    }
}

/// Whether a character is a digit in the given base.
pub open spec fn is_digit(c: char, base: nat) -> bool {
    ('0' <= c <= '9' || 'A' <= c <= 'F') && digit_value(c) < base
}

proof fn lemma_digits(n: nat, base: nat)
    requires
        2 <= base <= 16,
    ensures
        value(text::digits(n, base), base) == n,
        text::digits(n, base).len() > 0,
        forall|i: int|
            0 <= i < text::digits(n, base).len() ==> is_digit(
                #[trigger] text::digits(n, base)[i],
                base,
            ),
        n > 0 ==> text::digits(n, base)[0] != '0',
        n == 0 ==> text::digits(n, base).len() == 1,
    decreases n,
{
    let all = text::digits(n, base);
    if n < base {
        assert(all.drop_last() == Seq::<char>::empty());
        assert(value(all.drop_last(), base) == 0);
        assert(0 * base == 0) by (nonlinear_arith);
    } else {
        assert(0 < n / base < n && n % base < base && n == base * (n / base) + n % base)
            by (nonlinear_arith)
            requires
                n >= base,
                base >= 2,
        ;
        let high = text::digits(n / base, base);
        lemma_digits(n / base, base);
        assert(all.drop_last() == high);
        assert(all.last() == text::digit(n % base));
        assert(value(high, base) * base == base * (n / base)) by (nonlinear_arith)
            requires
                value(high, base) == n / base,
        ;
        assert forall|i: int| 0 <= i < all.len() implies is_digit(#[trigger] all[i], base) by {
            if i < high.len() {
                assert(all[i] == high[i]);
            }
        }
        assert(all[0] == high[0]);
    }
}

/// The decimal notation of a number has the value of the number, digits from zero to nine, and no zero
/// before them.
pub proof fn law_decimal(n: nat)
    ensures
        value(text::decimal(n), 10) == n,
        forall|i: int|
            0 <= i < text::decimal(n).len() ==> '0' <= #[trigger] text::decimal(n)[i] <= '9',
        text::decimal(n).len() > 0,
        text::decimal(n)[0] == '0' ==> text::decimal(n).len() == 1,
{
    lemma_digits(n, 10);
    assert forall|i: int| 0 <= i < text::decimal(n).len() implies '0' <= #[trigger] text::decimal(
        n,
    )[i] <= '9' by {
        assert(is_digit(text::digits(n, 10)[i], 10));
    }
}

/// The hexadecimal notation of a number has the value of the number, digits up to a capital `F`, and no
/// zero before them.
pub proof fn law_hexadecimal(n: nat)
    ensures
        value(text::hex_upper(n), 16) == n,
        forall|i: int|
            0 <= i < text::hex_upper(n).len() ==> is_digit(#[trigger] text::hex_upper(n)[i], 16),
        text::hex_upper(n).len() > 0,
        text::hex_upper(n)[0] == '0' ==> text::hex_upper(n).len() == 1,
{
    lemma_digits(n, 16);
}

/// Which characters are white space.
pub proof fn law_white_space(c: char)
    ensures
        text::white_space(c) <==> {
            ||| c == '\t' || c == '\n' || c == '\u{b}' || c == '\u{c}' || c == '\r' || c == ' '
            ||| c == '\u{85}' || c == '\u{a0}' || c == '\u{1680}'
            ||| '\u{2000}' <= c <= '\u{200a}'
            ||| c == '\u{2028}' || c == '\u{2029}' || c == '\u{202f}' || c == '\u{205f}' || c
                == '\u{3000}'
        },
{
}

/// Whether a text is cut out of another between two places, with only white space around it.
pub open spec fn cut_out(t: Seq<char>, s: Seq<char>, from: int, to: int) -> bool {
    &&& 0 <= from <= to <= s.len()
    &&& t == s.subrange(from, to)
    &&& forall|i: int| 0 <= i < from ==> text::white_space(#[trigger] s[i])
    &&& forall|i: int| to <= i < s.len() ==> text::white_space(#[trigger] s[i])
}

proof fn lemma_front(s: Seq<char>) -> (from: int)
    ensures
        0 <= from <= s.len(),
        text::trimmed_front(s) == s.subrange(from, s.len() as int),
        forall|i: int| 0 <= i < from ==> text::white_space(#[trigger] s[i]),
        from < s.len() ==> !text::white_space(s[from]),
    decreases s.len(),
{
    if s.len() > 0 && text::white_space(s[0]) {
        let rest = s.subrange(1, s.len() as int);
        let k = lemma_front(rest);
        assert(rest.subrange(k, rest.len() as int) == s.subrange(k + 1, s.len() as int));
        assert forall|i: int| 0 <= i < k + 1 implies text::white_space(#[trigger] s[i]) by {
            if i > 0 {
                assert(rest[i - 1] == s[i]);
            }
        }
        k + 1
    } else {
        assert(s.subrange(0, s.len() as int) == s);
        0
    }
}

proof fn lemma_back(s: Seq<char>) -> (to: int)
    ensures
        0 <= to <= s.len(),
        text::trimmed_back(s) == s.subrange(0, to),
        forall|i: int| to <= i < s.len() ==> text::white_space(#[trigger] s[i]),
        to > 0 ==> !text::white_space(s[to - 1]),
    decreases s.len(),
{
    if s.len() > 0 && text::white_space(s.last()) {
        let rest = s.drop_last();
        let k = lemma_back(rest);
        assert(rest.subrange(0, k) == s.subrange(0, k));
        assert forall|i: int| k <= i < s.len() implies text::white_space(#[trigger] s[i]) by {
            if i < rest.len() {
                assert(rest[i] == s[i]);
            }
        }
        k
    } else {
        assert(s.subrange(0, s.len() as int) == s);
        s.len() as int
    }
}

/// A trimmed text is what is left without the white space around it: it neither begins nor ends with
/// any.
pub proof fn law_trimmed(s: Seq<char>)
    ensures
        exists|from: int, to: int| cut_out(text::trimmed(s), s, from, to),
        text::trimmed(s).len() > 0 ==> !text::white_space(text::trimmed(s)[0])
            && !text::white_space(text::trimmed(s).last()),
{
    let from = lemma_front(s);
    let front = s.subrange(from, s.len() as int);
    let to = lemma_back(front);
    let t = front.subrange(0, to);
    assert(t == s.subrange(from, from + to));
    assert forall|i: int| from + to <= i < s.len() implies text::white_space(#[trigger] s[i]) by {
        assert(front[i - from] == s[i]);
    }
    assert(cut_out(text::trimmed(s), s, from, from + to));
    if t.len() > 0 {
        assert(t[0] == s[from]);
        assert(t.last() == front[to - 1]);
    }
}

/// A capital letter becomes the small one, which stands thirty-two places on; nothing else changes.
pub proof fn law_lower_case(s: Seq<char>, i: int)
    requires
        0 <= i < s.len(),
    ensures
        text::ascii_lowered(s).len() == s.len(),
        'A' <= s[i] <= 'Z' ==> text::ascii_lowered(s)[i] as int == s[i] as int + 32,
        !('A' <= s[i] <= 'Z') ==> text::ascii_lowered(s)[i] == s[i],
{
}

/// A text stands in another exactly if the other is it with something before and after it.
pub proof fn law_occurs(hay: Seq<char>, needle: Seq<char>)
    ensures
        text::occurs(hay, needle) <==> exists|a: Seq<char>, b: Seq<char>|
            hay == #[trigger] (a + needle + b),
        text::has_prefix(hay, needle) <==> needle.is_prefix_of(hay),
{
    if text::occurs(hay, needle) {
        let at = choose|at: int| text::occurs_at(hay, needle, at);
        let a = hay.subrange(0, at);
        let b = hay.subrange(at + needle.len(), hay.len() as int);
        assert(hay == a + needle + b);
    }
    if exists|a: Seq<char>, b: Seq<char>| hay == #[trigger] (a + needle + b) {
        let (a, b) = choose|a: Seq<char>, b: Seq<char>| hay == #[trigger] (a + needle + b);
        assert(hay.subrange(a.len() as int, (a.len() + needle.len()) as int) == needle);
        assert(text::occurs_at(hay, needle, a.len() as int));
    }
    if needle.is_prefix_of(hay) {
        assert(hay.subrange(0, needle.len() as int) == needle);
    }
    if text::has_prefix(hay, needle) {
        assert(hay.subrange(0, needle.len() as int) == needle);
    }
}

/// Whether two texts are the same up to a place where the first ends or has the lower character.
pub open spec fn differs_at(a: Seq<char>, b: Seq<char>, k: int) -> bool {
    &&& 0 <= k <= a.len()
    &&& k < b.len()
    &&& a.take(k) == b.take(k)
    &&& k == a.len() || a[k] < b[k]
}

/// A text stands before another exactly if it has the lower character where they first differ, or ends
/// there.
pub proof fn law_before(a: Seq<char>, b: Seq<char>)
    ensures
        text::before(a, b) <==> exists|k: int| differs_at(a, b, k),
    decreases a.len(),
{
    if a.len() > 0 && b.len() > 0 && a[0] == b[0] {
        let x = a.subrange(1, a.len() as int);
        let y = b.subrange(1, b.len() as int);
        law_before(x, y);
        if text::before(x, y) {
            let k = choose|k: int| differs_at(x, y, k);
            assert(a.take(k + 1) == b.take(k + 1)) by {
                assert forall|i: int| 0 <= i < k + 1 implies a[i] == b[i] by {
                    if i > 0 {
                        assert(x.take(k)[i - 1] == y.take(k)[i - 1]);
                    }
                }
            }
            assert(differs_at(a, b, k + 1));
        }
        if exists|k: int| differs_at(a, b, k) {
            let k = choose|k: int| differs_at(a, b, k);
            assert(k > 0);
            assert(x.take(k - 1) == y.take(k - 1)) by {
                assert forall|i: int| 0 <= i < k - 1 implies x[i] == y[i] by {
                    assert(a.take(k)[i + 1] == b.take(k)[i + 1]);
                }
            }
            assert(differs_at(x, y, k - 1));
        }
    } else {
        if text::before(a, b) {
            assert(a.take(0) == b.take(0));
            assert(differs_at(a, b, 0));
        }
        if exists|k: int| differs_at(a, b, k) {
            let k = choose|k: int| differs_at(a, b, k);
            if k > 0 && b.len() > 0 {
                assert(a.take(k)[0] == b.take(k)[0]);
            }
        }
    }
}

} // verus!
