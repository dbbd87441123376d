//! The mathematical model of bitstrings.
//!
//! A bitstring is viewed as a `Seq<Bit>` in least-significant-first order:
//! element `i` is the coefficient of `2^i`.
use vstd::arithmetic::power2::{lemma2_to64, lemma_pow2_pos, lemma_pow2_unfold, pow2};
use vstd::prelude::*;

use crate::bits::Bit;

verus! {

/// The numeric value of a bit: 0 or 1.
pub open spec fn bit_value(b: Bit) -> nat {
    match b {
        Bit::B0 => 0,
        Bit::B1 => 1,
    }
}

/// The number that a sequence of bits (least significant first) denotes.
pub open spec fn value(s: Seq<Bit>) -> nat
    decreases s.len(),
{
    if s.len() == 0 {
        0
    } else {
        bit_value(s[0]) + 2 * value(s.drop_first())
    }
}

/// The bit at position `i`, where positions past the end hold `0`.
pub open spec fn bit_at(s: Seq<Bit>, i: int) -> Bit {
    if 0 <= i < s.len() {
        s[i]
    } else {
        Bit::B0
    }
}

/// A bitstring in canonical form: non-empty, and its most significant bit is
/// `1` unless it is the single bit `0`.
pub open spec fn is_trimmed(s: Seq<Bit>) -> bool {
    s.len() >= 1 && (s.len() == 1 || s.last() == Bit::B1)
}

/// Strips the most significant zero bits, keeping at least one bit.
pub open spec fn trim(s: Seq<Bit>) -> Seq<Bit>
    decreases s.len(),
{
    if s.len() > 1 && s.last() == Bit::B0 {
        trim(s.drop_last())
    } else {
        s
    }
}

/// The canonical bitstring of a number.
pub open spec fn canonical(n: nat) -> Seq<Bit>
    decreases n,
{
    let low = if n % 2 == 0 { Bit::B0 } else { Bit::B1 };
    if n < 2 {
        seq![low]
    } else {
        seq![low] + canonical(n / 2)
    }
}

/// Appending a bit at the most significant end adds its weight.
pub proof fn lemma_value_push(s: Seq<Bit>, b: Bit)
    ensures
        value(s.push(b)) == value(s) + bit_value(b) * pow2(s.len()),
    decreases s.len(),
{
    if s.len() == 0 {
        assert(s.push(b).drop_first() =~= Seq::<Bit>::empty());
        assert(value(Seq::<Bit>::empty()) == 0);
        lemma2_to64();
    } else {
        assert(s.push(b).drop_first() =~= s.drop_first().push(b));
        lemma_value_push(s.drop_first(), b);
        lemma_pow2_unfold(s.len());
    }
}

/// A single bit denotes its own value.
pub proof fn lemma_value_single(b: Bit)
    ensures
        value(seq![b]) == bit_value(b),
{
    assert(seq![b].drop_first() =~= Seq::<Bit>::empty());
    assert(value(Seq::<Bit>::empty()) == 0);
}

/// A sequence of `n` bits denotes a number below `2^n`.
pub proof fn lemma_value_bound(s: Seq<Bit>)
    ensures
        value(s) < pow2(s.len()),
    decreases s.len(),
{
    if s.len() == 0 {
        lemma2_to64();
    } else {
        lemma_value_bound(s.drop_first());
        lemma_pow2_unfold(s.len());
    }
}

/// The value of a prefix plus the weight of the next bit.
pub proof fn lemma_value_take(s: Seq<Bit>, i: int)
    requires
        0 <= i < s.len(),
    ensures
        value(s.take(i + 1)) == value(s.take(i)) + bit_value(s[i]) * pow2(i as nat),
{
    assert(s.take(i + 1) =~= s.take(i).push(s[i]));
    lemma_value_push(s.take(i), s[i]);
}

/// A bitstring whose most significant bit is `1` is at least `2^(n-1)`.
pub proof fn lemma_value_top(s: Seq<Bit>)
    requires
        s.len() >= 1,
        s.last() == Bit::B1,
    ensures
        value(s) >= pow2((s.len() - 1) as nat),
{
    let init = s.drop_last();
    assert(s =~= init.push(Bit::B1));
    lemma_value_push(init, Bit::B1);
    assert(bit_value(Bit::B1) == 1);
    assert(init.len() == s.len() - 1);
    assert(value(init.push(Bit::B1)) == value(init) + pow2(init.len()));
}

/// Trimming keeps the value and gives a canonical prefix.
pub proof fn lemma_trim(s: Seq<Bit>)
    requires
        s.len() >= 1,
    ensures
        is_trimmed(trim(s)),
        trim(s).len() <= s.len(),
        value(trim(s)) == value(s),
        trim(s) =~= s.take(trim(s).len() as int),
        forall|i: int| trim(s).len() <= i < s.len() ==> s[i] == Bit::B0,
    decreases s.len(),
{
    if s.len() > 1 && s.last() == Bit::B0 {
        lemma_trim(s.drop_last());
        assert(s =~= s.drop_last().push(Bit::B0));
        lemma_value_push(s.drop_last(), Bit::B0);
        assert(bit_value(Bit::B0) == 0);
        assert(value(s) == value(s.drop_last()));
        assert(s.drop_last().take(trim(s).len() as int) =~= s.take(trim(s).len() as int));
    } else {
        assert(s =~= s.take(s.len() as int));
    }
}

/// Two bitstrings of one length with one value are equal.
pub proof fn lemma_value_injective(s: Seq<Bit>, t: Seq<Bit>)
    requires
        s.len() == t.len(),
        value(s) == value(t),
    ensures
        s == t,
    decreases s.len(),
{
    if s.len() > 0 {
        let (x, y) = (value(s.drop_first()), value(t.drop_first()));
        assert(value(s) == bit_value(s[0]) + 2 * x);
        assert(value(t) == bit_value(t[0]) + 2 * y);
        assert(bit_value(s[0]) == bit_value(t[0]));
        assert(s[0] == t[0]);
        assert(x == y);
        lemma_value_injective(s.drop_first(), t.drop_first());
        assert(s =~= seq![s[0]] + s.drop_first());
        assert(t =~= seq![t[0]] + t.drop_first());
    }
}

/// A canonical bitstring of `n > 1` bits denotes at least 2.
proof fn lemma_trimmed_long(s: Seq<Bit>)
    requires
        is_trimmed(s),
        s.len() > 1,
    ensures
        value(s) >= 2,
{
    lemma_value_top(s);
    lemma_pow2_unfold((s.len() - 1) as nat);
    lemma_pow2_pos((s.len() - 2) as nat);
}

/// Two canonical bitstrings with one value are equal.
pub proof fn lemma_trimmed_unique(s: Seq<Bit>, t: Seq<Bit>)
    requires
        is_trimmed(s),
        is_trimmed(t),
        value(s) == value(t),
    ensures
        s == t,
    decreases s.len(),
{
    if s.len() == 1 && t.len() == 1 {
        lemma_value_injective(s, t);
    } else if s.len() == 1 {
        lemma_trimmed_long(t);
        assert(s =~= seq![s[0]]);
        lemma_value_single(s[0]);
    } else if t.len() == 1 {
        lemma_trimmed_long(s);
        assert(t =~= seq![t[0]]);
        lemma_value_single(t[0]);
    } else {
        let (x, y) = (value(s.drop_first()), value(t.drop_first()));
        assert(value(s) == bit_value(s[0]) + 2 * x);
        assert(value(t) == bit_value(t[0]) + 2 * y);
        assert(bit_value(s[0]) == bit_value(t[0]));
        assert(s[0] == t[0]);
        assert(s.drop_first().last() == s.last());
        assert(t.drop_first().last() == t.last());
        lemma_trimmed_unique(s.drop_first(), t.drop_first());
        assert(s =~= seq![s[0]] + s.drop_first());
        assert(t =~= seq![t[0]] + t.drop_first());
    }
}

/// The canonical bitstring of `n` is trimmed and denotes `n`.
pub proof fn lemma_canonical(n: nat)
    ensures
        is_trimmed(canonical(n)),
        value(canonical(n)) == n,
    decreases n,
{
    let low = if n % 2 == 0 { Bit::B0 } else { Bit::B1 };
    assert(n == 2 * (n / 2) + n % 2);
    if n < 2 {
        assert(seq![low].drop_first() =~= Seq::<Bit>::empty());
        assert(value(Seq::<Bit>::empty()) == 0);
    } else {
        let m = n / 2;
        lemma_canonical(m);
        let c = canonical(n);
        assert(c == seq![low] + canonical(m));
        assert(c.drop_first() =~= canonical(m));
        assert(c[0] == low);
        assert(value(c) == bit_value(low) + 2 * value(canonical(m)));
        if m >= 2 {
            if canonical(m).len() == 1 {
                assert(canonical(m) =~= seq![canonical(m)[0]]);
                lemma_value_single(canonical(m)[0]);
            }
            assert(c.last() == canonical(m).last());
        } else {
            assert(canonical(m) =~= seq![Bit::B1]);
        }
    }
}

/// Trimming a bitstring gives the canonical bitstring of its value.
pub proof fn lemma_trim_canonical(s: Seq<Bit>)
    requires
        s.len() >= 1,
    ensures
        trim(s) == canonical(value(s)),
{
    lemma_trim(s);
    lemma_canonical(value(s));
    lemma_trimmed_unique(trim(s), canonical(value(s)));
}

/// Dropping low bits never makes a number larger.
pub proof fn lemma_value_skip(s: Seq<Bit>, i: int)
    requires
        0 <= i <= s.len(),
    ensures
        value(s.skip(i)) <= value(s),
    decreases i,
{
    if i > 0 {
        lemma_value_skip(s.drop_first(), i - 1);
        assert(s.drop_first().skip(i - 1) =~= s.skip(i));
    } else {
        assert(s.skip(0) =~= s);
    }
}

/// The head of a bitstring: everything but its least significant bit, or the
/// single bit `0` where nothing is left.
pub open spec fn head_of(s: Seq<Bit>) -> Seq<Bit> {
    if s.len() <= 1 {
        seq![Bit::B0]
    } else {
        s.drop_first()
    }
}

/// `AND` of two bits.
pub open spec fn and_bit(a: Bit, b: Bit) -> Bit {
    if a == Bit::B1 && b == Bit::B1 {
        Bit::B1
    } else {
        Bit::B0
    }
}

/// `OR` of two bits.
pub open spec fn or_bit(a: Bit, b: Bit) -> Bit {
    if a == Bit::B1 || b == Bit::B1 {
        Bit::B1
    } else {
        Bit::B0
    }
}

/// `NOT` of a bit.
pub open spec fn not_bit(a: Bit) -> Bit {
    if a == Bit::B1 {
        Bit::B0
    } else {
        Bit::B1
    }
}

/// `XOR` of two bits.
pub open spec fn xor_bit(a: Bit, b: Bit) -> Bit {
    if a != b {
        Bit::B1
    } else {
        Bit::B0
    }
}

/// The longer of two lengths.
pub open spec fn max_len(a: Seq<Bit>, b: Seq<Bit>) -> nat {
    if a.len() >= b.len() {
        a.len()
    } else {
        b.len()
    }
}

/// Bitwise `AND`, aligned at the least significant bit; missing bits are `0`.
pub open spec fn and_bits(a: Seq<Bit>, b: Seq<Bit>) -> Seq<Bit> {
    Seq::new(max_len(a, b), |i: int| and_bit(bit_at(a, i), bit_at(b, i)))
}

/// Bitwise `OR`, aligned at the least significant bit; missing bits are `0`.
pub open spec fn or_bits(a: Seq<Bit>, b: Seq<Bit>) -> Seq<Bit> {
    Seq::new(max_len(a, b), |i: int| or_bit(bit_at(a, i), bit_at(b, i)))
}

/// Bitwise `NOT` of every bit of the representation.
pub open spec fn not_bits(a: Seq<Bit>) -> Seq<Bit> {
    Seq::new(a.len(), |i: int| not_bit(a[i]))
}

/// The digit character of a bit.
pub open spec fn digit_of(b: Bit) -> char {
    if b == Bit::B1 {
        '1'
    } else {
        '0'
    }
}

/// The binary digits of a bitstring, most significant first.
pub open spec fn digits(s: Seq<Bit>) -> Seq<char> {
    Seq::new(s.len(), |j: int| digit_of(s[s.len() - 1 - j]))
}

/// Whether a character is a binary digit.
pub open spec fn is_digit(c: char) -> bool {
    c == '0' || c == '1'
}

/// The bitstring that a string of binary digits (most significant first)
/// spells, or `None` where the string is empty or holds another character.
pub open spec fn parse_digits(cs: Seq<char>) -> Option<Seq<Bit>> {
    if cs.len() >= 1 && forall|j: int| 0 <= j < cs.len() ==> is_digit(#[trigger] cs[j]) {
        Some(
            Seq::new(
                cs.len(),
                |i: int|
                    if cs[cs.len() - 1 - i] == '1' {
                        Bit::B1
                    } else {
                        Bit::B0
                    },
            ),
        )
    } else {
        None
    }
}

} // verus!
