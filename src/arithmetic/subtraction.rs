use vstd::arithmetic::div_mod::{lemma_mod_multiples_vanish, lemma_small_mod};
use vstd::arithmetic::power2::{lemma2_to64, lemma_pow2_pos, lemma_pow2_unfold, pow2};
use vstd::prelude::*;

use crate::arithmetic::{
    lemma_low_value_full, lemma_low_value_step, low_value, ripple_operands, ripple_setup,
    ripple_width, trim_result,
};
use crate::bits::{Bit, Bitstring, Tape};
use crate::model::{
    and_bit, bit_value, canonical, lemma_value_bound, lemma_value_push, not_bit, or_bit, value,
    xor_bit,
};

verus! {

/// A half-subtractor on single bits, with a borrow in.
pub trait HalfSubtract {
    /// The difference bit: `self XOR rhs XOR borrow_in`.
    fn half_difference(self, rhs: Bit, borrow_in: Bit) -> Bit;

    /// The borrow out: `((NOT self) AND rhs) OR ((NOT (self XOR rhs)) AND borrow_in)`.
    fn half_borrow(self, rhs: Bit, borrow_in: Bit) -> Bit;
}

impl HalfSubtract for Bit {
    fn half_difference(self, rhs: Bit, borrow_in: Bit) -> (r: Bit)
        ensures
            r == xor_bit(self, xor_bit(rhs, borrow_in)),
    {
        if (self == rhs) == (borrow_in == Bit::B0) {
            Bit::B0
        } else {
            Bit::B1
        }
    }

    fn half_borrow(self, rhs: Bit, borrow_in: Bit) -> (r: Bit)
        ensures
            r == or_bit(
                and_bit(not_bit(self), rhs),
                and_bit(not_bit(xor_bit(self, rhs)), borrow_in),
            ),
    {
        if self == Bit::B0 && rhs == Bit::B1 {
            Bit::B1
        } else if self == rhs && borrow_in == Bit::B1 {
            Bit::B1
        } else {
            Bit::B0
        }
    }
}

/// What a half-subtractor's two outputs stand for.
pub proof fn lemma_half_subtract(a: Bit, b: Bit, c: Bit)
    ensures
        bit_value(xor_bit(a, xor_bit(b, c))) - 2 * bit_value(
            or_bit(and_bit(not_bit(a), b), and_bit(not_bit(xor_bit(a, b)), c)),
        ) == bit_value(a) - bit_value(b) - bit_value(c),
{
}

/// The canonical bitstring of the wrapping difference of two bitstrings,
/// taken modulo `2^n` where `n` is their [`ripple_width`].
pub open spec fn difference_of(a: Seq<Bit>, b: Seq<Bit>) -> Seq<Bit> {
    canonical(((value(a) - value(b)) % (pow2(ripple_width(a, b)) as int)) as nat)
}

/// Subtraction of bitstrings, wrapping below zero.
///
/// Where the true difference is negative, the result is taken modulo `2^n`,
/// with `n` the length of the longer operand once both are trimmed: `6 - 11`
/// gives `11`, as `-5` is `11` modulo 16.
pub trait Subtract: Bitstring {
    /// The wrapping difference, trimmed.
    fn difference<R: Bitstring>(&self, rhs: &R) -> (r: Tape)
        ensures
            r@ == difference_of(self.bits(), rhs.bits()),
    ;

    /// The untrimmed difference under a borrow in: one bit per position of
    /// the ripple, then a `0` in place of the final borrow.
    fn difference_with_borrow<R: Bitstring>(&self, rhs: &R, borrow_in: Bit) -> (r: Tape)
        ensures
            r@.len() == ripple_width(self.bits(), rhs.bits()) + 1,
            r@.last() == Bit::B0,
            value(r@) == (value(self.bits()) - value(rhs.bits()) - bit_value(borrow_in)) % (pow2(
                ripple_width(self.bits(), rhs.bits()),
            ) as int),
    ;
}

/// Ripple-borrow subtraction from the least significant bit up.
fn ripple_subtract(a: &Tape, b: &Tape, borrow_in: Bit) -> (r: Tape)
    ensures
        r@.len() == ripple_width(a@, b@) + 1,
        r@.last() == Bit::B0,
        value(r@) == (value(a@) - value(b@) - bit_value(borrow_in)) % (pow2(ripple_width(a@, b@)) as int),
{
    let (ta, tb, n) = ripple_operands(a, b);
    let mut out: Vec<Bit> = Vec::new();
    let mut borrow = borrow_in;
    let mut i: usize = 0;
    proof {
        lemma2_to64();
        assert(ta@.take(0) =~= Seq::<Bit>::empty());
        assert(tb@.take(0) =~= Seq::<Bit>::empty());
        assert(out@ =~= Seq::<Bit>::empty());
    }
    while i < n
        invariant
            ripple_setup(a@, b@, ta@, tb@, n as nat),
            i <= n,
            out@.len() == i,
            value(out@) - bit_value(borrow) * pow2(i as nat) == low_value(ta@, i as nat) - low_value(
                tb@,
                i as nat,
            ) - bit_value(borrow_in),
        decreases n - i,
    {
        let x = ta.bit(i);
        let y = tb.bit(i);
        let d = x.half_difference(y, borrow);
        let c = x.half_borrow(y, borrow);
        proof {
            lemma_half_subtract(x, y, borrow);
            lemma_value_push(out@, d);
            lemma_low_value_step(ta@, i as nat);
            lemma_low_value_step(tb@, i as nat);
            lemma_pow2_unfold(i as nat + 1);
            let (p, q) = (pow2(i as nat) as int, pow2(i as nat + 1) as int);
            let (vd, vc) = (bit_value(d) as int, bit_value(c) as int);
            assert(vd * p - vc * q == (vd - 2 * vc) * p) by (nonlinear_arith)
                requires
                    q == 2 * p,
            ;
            assert((bit_value(x) - bit_value(y) - bit_value(borrow)) * pow2(i as nat) == bit_value(x)
                * pow2(i as nat) - bit_value(y) * pow2(i as nat) - bit_value(borrow) * pow2(
                i as nat,
            )) by (nonlinear_arith);
        }
        out.push(d);
        borrow = c;
        i = i + 1;
    }
    proof {
        let m = pow2(n as nat) as int;
        let total = value(a@) - value(b@) - bit_value(borrow_in);
        lemma_low_value_full(ta@, n as nat);
        lemma_low_value_full(tb@, n as nat);
        lemma_value_bound(out@);
        lemma_pow2_pos(n as nat);
        lemma_value_push(out@, Bit::B0);
        assert(value(out@) == total + bit_value(borrow) * m);
        lemma_mod_multiples_vanish(bit_value(borrow) as int, total, m);
        assert(m * bit_value(borrow) == bit_value(borrow) * m) by (nonlinear_arith);
        lemma_small_mod(value(out@), m as nat);
    }
    out.push(Bit::B0);
    Tape::from_bits(out)
}

impl Subtract for Tape {
    fn difference<R: Bitstring>(&self, rhs: &R) -> (r: Tape) {
        let b = rhs.to_tape();
        trim_result(ripple_subtract(self, &b, Bit::B0))
    }

    fn difference_with_borrow<R: Bitstring>(&self, rhs: &R, borrow_in: Bit) -> (r: Tape) {
        let b = rhs.to_tape();
        ripple_subtract(self, &b, borrow_in)
    }
}

impl Subtract for Bit {
    fn difference<R: Bitstring>(&self, rhs: &R) -> (r: Tape) {
        Tape::from_bit(*self).difference(rhs)
    }

    fn difference_with_borrow<R: Bitstring>(&self, rhs: &R, borrow_in: Bit) -> (r: Tape) {
        Tape::from_bit(*self).difference_with_borrow(rhs, borrow_in)
    }
}

} // verus!
