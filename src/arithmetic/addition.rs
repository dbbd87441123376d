use vstd::arithmetic::power2::{lemma2_to64, pow2};
use vstd::prelude::*;

use crate::arithmetic::{
    lemma_low_value_full, lemma_low_value_step, lemma_weight_step, low_value, ripple_operands,
    ripple_setup, ripple_width, trim_result,
};
use crate::bits::{Bit, Bitstring, Tape};
use crate::model::{and_bit, bit_value, canonical, lemma_value_push, or_bit, value, xor_bit};

verus! {

/// A half-adder on single bits, with a carry in.
pub trait HalfAdd {
    /// The sum bit: `self XOR rhs XOR carry_in`.
    fn half_sum(self, rhs: Bit, carry_in: Bit) -> Bit;

    /// The carry out: `(self AND rhs) OR ((self XOR rhs) AND carry_in)`.
    fn half_carry(self, rhs: Bit, carry_in: Bit) -> Bit;
}

impl HalfAdd for Bit {
    fn half_sum(self, rhs: Bit, carry_in: Bit) -> (r: Bit)
        ensures
            r == xor_bit(xor_bit(self, rhs), carry_in),
    {
        if (self == rhs) == (carry_in == Bit::B0) {
            Bit::B0
        } else {
            Bit::B1
        }
    }

    fn half_carry(self, rhs: Bit, carry_in: Bit) -> (r: Bit)
        ensures
            r == or_bit(and_bit(self, rhs), and_bit(xor_bit(self, rhs), carry_in)),
    {
        if self == Bit::B1 && rhs == Bit::B1 {
            Bit::B1
        } else if self != rhs && carry_in == Bit::B1 {
            Bit::B1
        } else {
            Bit::B0
        }
    }
}

/// What a half-adder's two outputs add up to.
pub proof fn lemma_half_add(a: Bit, b: Bit, c: Bit)
    ensures
        bit_value(xor_bit(xor_bit(a, b), c)) + 2 * bit_value(
            or_bit(and_bit(a, b), and_bit(xor_bit(a, b), c)),
        ) == bit_value(a) + bit_value(b) + bit_value(c),
{
}

/// The canonical bitstring of the sum of two bitstrings.
pub open spec fn sum_of(a: Seq<Bit>, b: Seq<Bit>) -> Seq<Bit> {
    canonical(value(a) + value(b))
}

/// Addition of bitstrings.
pub trait Add: Bitstring {
    /// The sum, trimmed.
    fn sum<R: Bitstring>(&self, rhs: &R) -> (r: Tape)
        ensures
            r@ == sum_of(self.bits(), rhs.bits()),
    ;

    /// The untrimmed sum under a carry in: one bit per position of the
    /// ripple, then the final carry.
    fn sum_with_carry<R: Bitstring>(&self, rhs: &R, carry_in: Bit) -> (r: Tape)
        ensures
            r@.len() == ripple_width(self.bits(), rhs.bits()) + 1,
            value(r@) == value(self.bits()) + value(rhs.bits()) + bit_value(carry_in),
    ;
}

/// Ripple-carry addition from the least significant bit up.
fn ripple_add(a: &Tape, b: &Tape, carry_in: Bit) -> (r: Tape)
    ensures
        r@.len() == ripple_width(a@, b@) + 1,
        value(r@) == value(a@) + value(b@) + bit_value(carry_in),
{
    let (ta, tb, n) = ripple_operands(a, b);
    let mut out: Vec<Bit> = Vec::new();
    let mut carry = carry_in;
    let mut i: usize = 0;
    proof {
        lemma2_to64();
        assert(ta@.take(0) =~= Seq::<Bit>::empty());
        assert(tb@.take(0) =~= Seq::<Bit>::empty());
        assert(out@ =~= Seq::<Bit>::empty());
    }
    while i < n
        invariant
            ripple_setup(a@, b@, ta@, tb@, n as nat),
            i <= n,
            out@.len() == i,
            value(out@) + bit_value(carry) * pow2(i as nat) == low_value(ta@, i as nat) + low_value(
                tb@,
                i as nat,
            ) + bit_value(carry_in),
        decreases n - i,
    {
        let x = ta.bit(i);
        let y = tb.bit(i);
        let s = x.half_sum(y, carry);
        let c = x.half_carry(y, carry);
        proof {
            lemma_half_add(x, y, carry);
            lemma_value_push(out@, s);
            lemma_low_value_step(ta@, i as nat);
            lemma_low_value_step(tb@, i as nat);
            lemma_weight_step(i as nat, bit_value(s) as int, bit_value(c) as int);
            assert((bit_value(x) + bit_value(y) + bit_value(carry)) * pow2(i as nat) == bit_value(x)
                * pow2(i as nat) + bit_value(y) * pow2(i as nat) + bit_value(carry) * pow2(
                i as nat,
            )) by (nonlinear_arith);
        }
        out.push(s);
        carry = c;
        i = i + 1;
    }
    proof {
        lemma_low_value_full(ta@, n as nat);
        lemma_low_value_full(tb@, n as nat);
        lemma_value_push(out@, carry);
    }
    out.push(carry);
    Tape::from_bits(out)
}

impl Add for Tape {
    fn sum<R: Bitstring>(&self, rhs: &R) -> (r: Tape) {
        let b = rhs.to_tape();
        trim_result(ripple_add(self, &b, Bit::B0))
    }

    fn sum_with_carry<R: Bitstring>(&self, rhs: &R, carry_in: Bit) -> (r: Tape) {
        let b = rhs.to_tape();
        ripple_add(self, &b, carry_in)
    }
}

impl Add for Bit {
    fn sum<R: Bitstring>(&self, rhs: &R) -> (r: Tape) {
        Tape::from_bit(*self).sum(rhs)
    }

    fn sum_with_carry<R: Bitstring>(&self, rhs: &R, carry_in: Bit) -> (r: Tape) {
        Tape::from_bit(*self).sum_with_carry(rhs, carry_in)
    }
}

} // verus!
