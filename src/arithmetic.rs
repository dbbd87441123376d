//! Ripple-carry addition and ripple-borrow subtraction.
use vstd::arithmetic::power2::{lemma_pow2_unfold, pow2};
use vstd::prelude::*;

use crate::bits::{Bit, Bitstring, Tape};
use crate::model::{
    bit_at, bit_value, canonical, lemma_trim, lemma_trim_canonical, lemma_value_take, trim, value,
};

pub mod addition;
pub mod subtraction;

verus! {

/// The number of bit positions that a ripple walks over two operands: the
/// length of the longer of the two once trimmed.
pub open spec fn ripple_width(a: Seq<Bit>, b: Seq<Bit>) -> nat {
    if trim(a).len() >= trim(b).len() {
        trim(a).len()
    } else {
        trim(b).len()
    }
}

/// The value of the lowest `i` bits of `s`.
pub open spec fn low_value(s: Seq<Bit>, i: nat) -> nat {
    if i <= s.len() {
        value(s.take(i as int))
    } else {
        value(s)
    }
}

/// One more bit position adds the weight of the bit found there.
pub proof fn lemma_low_value_step(s: Seq<Bit>, i: nat)
    ensures
        low_value(s, i + 1) == low_value(s, i) + bit_value(bit_at(s, i as int)) * pow2(i),
{
    if i < s.len() {
        lemma_value_take(s, i as int);
    } else if i == s.len() {
        assert(s.take(i as int) =~= s);
    }
}

/// All the positions of a bitstring give its value.
pub proof fn lemma_low_value_full(s: Seq<Bit>, i: nat)
    requires
        s.len() <= i,
    ensures
        low_value(s, i) == value(s),
{
    if i == s.len() {
        assert(s.take(i as int) =~= s);
    }
}

/// The operands of a ripple: `ta` and `tb` are `a` and `b` trimmed, and `n`
/// is the ripple's width.
pub(crate) open spec fn ripple_setup(
    a: Seq<Bit>,
    b: Seq<Bit>,
    ta: Seq<Bit>,
    tb: Seq<Bit>,
    n: nat,
) -> bool {
    &&& a.len() >= 1
    &&& b.len() >= 1
    &&& ta == trim(a)
    &&& tb == trim(b)
    &&& n == ripple_width(a, b)
    &&& value(ta) == value(a)
    &&& value(tb) == value(b)
}

/// Trims both operands and gives the ripple's width.
pub(crate) fn ripple_operands(a: &Tape, b: &Tape) -> (r: (Tape, Tape, usize))
    ensures
        ripple_setup(a@, b@, r.0@, r.1@, r.2 as nat),
        r.2 >= 1,
{
    let ta = a.trimmed();
    let tb = b.trimmed();
    proof {
        lemma_trim(a@);
        lemma_trim(b@);
    }
    let la = ta.bit_len();
    let lb = tb.bit_len();
    let n = if la >= lb {
        la
    } else {
        lb
    };
    (ta, tb, n)
}

/// Moving the ripple one position on: the output bit and the carry out
/// stand for `digit + 2 * carry_out` at position `i`.
pub(crate) proof fn lemma_weight_step(i: nat, digit: int, carry_out: int)
    ensures
        digit * pow2(i) + carry_out * pow2(i + 1) == (digit + 2 * carry_out) * pow2(i),
{
    lemma_pow2_unfold(i + 1);
    assert(digit * pow2(i) + carry_out * (2 * pow2(i)) == (digit + 2 * carry_out) * pow2(i))
        by (nonlinear_arith);
}

/// The trimmed result of a ripple is the canonical bitstring of its value.
pub(crate) fn trim_result(t: Tape) -> (r: Tape)
    ensures
        r@ == canonical(value(t@)),
{
    let r = t.trimmed();
    proof {
        lemma_trim_canonical(t@);
    }
    r
}

} // verus!
