//! Laws that relate the operations of this crate, proved over the
//! mathematical model that their contracts speak of.
use vstd::arithmetic::div_mod::{lemma_mod_add_multiples_vanish, lemma_small_mod};
use vstd::arithmetic::power2::{lemma_pow2_pos, lemma_pow2_strictly_increases, pow2};
use vstd::prelude::*;

use crate::arithmetic::addition::sum_of;
use crate::arithmetic::ripple_width;
use crate::arithmetic::subtraction::difference_of;
use crate::bits::Bit;
use crate::model::{
    and_bits, canonical, digits, lemma_trim, lemma_trim_canonical,
    lemma_value_bound, lemma_value_single, or_bits, parse_digits, trim, value,
};

verus! {

/// Addition commutes.
pub proof fn lemma_sum_commutes(a: Seq<Bit>, b: Seq<Bit>)
    ensures
        sum_of(a, b) == sum_of(b, a),
{
}

/// Bitwise `AND` commutes.
pub proof fn lemma_and_commutes(a: Seq<Bit>, b: Seq<Bit>)
    ensures
        trim(and_bits(a, b)) == trim(and_bits(b, a)),
{
    assert(and_bits(a, b) =~= and_bits(b, a));
}

/// Bitwise `OR` commutes.
pub proof fn lemma_or_commutes(a: Seq<Bit>, b: Seq<Bit>)
    ensures
        trim(or_bits(a, b)) == trim(or_bits(b, a)),
{
    assert(or_bits(a, b) =~= or_bits(b, a));
}

/// Adding zero gives the trimmed operand.
pub proof fn lemma_sum_zero(a: Seq<Bit>)
    requires
        a.len() >= 1,
    ensures
        sum_of(a, seq![Bit::B0]) == trim(a),
{
    lemma_value_single(Bit::B0);
    lemma_trim_canonical(a);
}

/// `AND` of a bitstring with itself gives it trimmed.
pub proof fn lemma_and_self(a: Seq<Bit>)
    ensures
        trim(and_bits(a, a)) == trim(a),
{
    assert(and_bits(a, a) =~= a);
}

/// `OR` of a bitstring with itself gives it trimmed.
pub proof fn lemma_or_self(a: Seq<Bit>)
    ensures
        trim(or_bits(a, a)) == trim(a),
{
    assert(or_bits(a, a) =~= a);
}

/// Reading back the rendered digits of a bitstring gives the same bits, and
/// so the same value.
pub proof fn lemma_render_round_trip(b: Seq<Bit>)
    requires
        b.len() >= 1,
    ensures
        parse_digits(digits(b)) == Some(b),
        value(parse_digits(digits(b))->Some_0) == value(b),
{
    let cs = digits(b);
    assert forall|j: int| 0 <= j < cs.len() implies (#[trigger] cs[j] == '0' || cs[j] == '1') by {}
    assert(parse_digits(cs)->Some_0 =~= b);
}

/// Trimming twice is trimming once.
pub proof fn lemma_trim_idempotent(b: Seq<Bit>)
    requires
        b.len() >= 1,
    ensures
        trim(trim(b)) == trim(b),
{
    lemma_trim(b);
    lemma_trim(trim(b));
    lemma_trim_canonical(b);
    lemma_trim_canonical(trim(b));
}

/// Any bitstring of value zero trims to the single bit `0`.
pub proof fn lemma_trim_zero(b: Seq<Bit>)
    requires
        b.len() >= 1,
        value(b) == 0,
    ensures
        trim(b) == seq![Bit::B0],
{
    lemma_trim_canonical(b);
    assert(canonical(0) =~= seq![Bit::B0]);
}

/// A bitstring is below `2^n` for `n` its ripple width against any other.
proof fn lemma_below_width(a: Seq<Bit>, b: Seq<Bit>)
    requires
        a.len() >= 1,
        b.len() >= 1,
    ensures
        value(a) < pow2(ripple_width(a, b)),
        value(b) < pow2(ripple_width(a, b)),
{
    lemma_trim(a);
    lemma_trim(b);
    lemma_value_bound(trim(a));
    lemma_value_bound(trim(b));
    let n = ripple_width(a, b);
    if trim(a).len() < n {
        lemma_pow2_strictly_increases(trim(a).len(), n);
    }
    if trim(b).len() < n {
        lemma_pow2_strictly_increases(trim(b).len(), n);
    }
}

/// Where the first operand is at least the second, the difference is the
/// true difference.
pub proof fn lemma_difference_exact(a: Seq<Bit>, b: Seq<Bit>)
    requires
        a.len() >= 1,
        b.len() >= 1,
        value(a) >= value(b),
    ensures
        difference_of(a, b) == canonical((value(a) - value(b)) as nat),
{
    lemma_below_width(a, b);
    lemma_small_mod((value(a) - value(b)) as nat, pow2(ripple_width(a, b)));
}

/// Where the first operand is below the second, the difference wraps: it is
/// `(2^n - (b - a)) mod 2^n`, with `n` the length of the longer operand once
/// both are trimmed.
pub proof fn lemma_difference_wraps(a: Seq<Bit>, b: Seq<Bit>)
    requires
        a.len() >= 1,
        b.len() >= 1,
        value(a) < value(b),
    ensures
        difference_of(a, b) == canonical(
            ((pow2(ripple_width(a, b)) - (value(b) - value(a))) % (pow2(ripple_width(a, b)) as int)) as nat,
        ),
{
    let m = pow2(ripple_width(a, b)) as int;
    lemma_pow2_pos(ripple_width(a, b));
    lemma_mod_add_multiples_vanish(value(a) - value(b), m);
    assert(m - (value(b) - value(a)) == m + (value(a) - value(b)));
}

} // verus!
