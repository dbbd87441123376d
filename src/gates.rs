//! Logic gates on single bits, and the gates on bitstrings that are built
//! from `AND`, `OR` and `NOT`.
use vstd::prelude::*;

use crate::bits::{Bit, Bitstring, Tape};
use crate::model::{and_bit, and_bits, not_bit, not_bits, or_bit, or_bits, trim, xor_bit};

verus! {

/// `AND` of two bits.
pub fn bit_and(a: Bit, b: Bit) -> (r: Bit)
    ensures
        r == and_bit(a, b),
{
    if a == Bit::B1 && b == Bit::B1 {
        Bit::B1
    } else {
        Bit::B0
    }
}

/// `OR` of two bits.
pub fn bit_or(a: Bit, b: Bit) -> (r: Bit)
    ensures
        r == or_bit(a, b),
{
    if a == Bit::B1 || b == Bit::B1 {
        Bit::B1
    } else {
        Bit::B0
    }
}

/// `NOT` of a bit.
pub fn bit_not(a: Bit) -> (r: Bit)
    ensures
        r == not_bit(a),
{
    match a {
        Bit::B0 => Bit::B1,
        Bit::B1 => Bit::B0,
    }
}

/// `XOR` of two bits, as `(a AND NOT b) OR (NOT a AND b)`.
pub fn bit_xor(a: Bit, b: Bit) -> (r: Bit)
    ensures
        r == xor_bit(a, b),
        r == or_bit(and_bit(a, not_bit(b)), and_bit(not_bit(a), b)),
{
    bit_or(bit_and(a, bit_not(b)), bit_and(bit_not(a), b))
}

/// `NAND` of two bits.
pub fn bit_nand(a: Bit, b: Bit) -> (r: Bit)
    ensures
        r == not_bit(and_bit(a, b)),
{
    bit_not(bit_and(a, b))
}

/// `NOR` of two bits.
pub fn bit_nor(a: Bit, b: Bit) -> (r: Bit)
    ensures
        r == not_bit(or_bit(a, b)),
{
    bit_not(bit_or(a, b))
}

/// `XNOR` of two bits.
pub fn bit_xnor(a: Bit, b: Bit) -> (r: Bit)
    ensures
        r == not_bit(xor_bit(a, b)),
{
    bit_not(bit_xor(a, b))
}

/// A two-input multiplexer: `a` where the selector is `0`, `b` where it is
/// `1`, computed as `(NOT s AND a) OR (s AND b)`.
pub fn bit_mux(s: Bit, a: Bit, b: Bit) -> (r: Bit)
    ensures
        r == (if s == Bit::B1 {
            b
        } else {
            a
        }),
        r == or_bit(and_bit(not_bit(s), a), and_bit(s, b)),
{
    bit_or(bit_and(bit_not(s), a), bit_and(s, b))
}

/// `XOR` of two bitstrings, composed as `(a AND NOT b) OR (NOT a AND b)`.
pub open spec fn xor_of(a: Seq<Bit>, b: Seq<Bit>) -> Seq<Bit> {
    trim(or_bits(trim(and_bits(a, trim(not_bits(b)))), trim(and_bits(trim(not_bits(a)), b))))
}

/// `XOR` of two bitstrings, composed from the bitstring `AND`, `OR` and
/// `NOT`; each `NOT` flips the bits of its operand's own representation.
pub fn xor(a: &Tape, b: &Tape) -> (r: Tape)
    ensures
        r@ == xor_of(a@, b@),
{
    let left = a.and(&b.not());
    let right = a.not().and(b);
    left.or(&right)
}

/// `NAND` of two bitstrings.
pub fn nand(a: &Tape, b: &Tape) -> (r: Tape)
    ensures
        r@ == trim(not_bits(trim(and_bits(a@, b@)))),
{
    a.and(b).not()
}

/// `NOR` of two bitstrings.
pub fn nor(a: &Tape, b: &Tape) -> (r: Tape)
    ensures
        r@ == trim(not_bits(trim(or_bits(a@, b@)))),
{
    a.or(b).not()
}

/// `XNOR` of two bitstrings.
pub fn xnor(a: &Tape, b: &Tape) -> (r: Tape)
    ensures
        r@ == trim(not_bits(xor_of(a@, b@))),
{
    xor(a, b).not()
}

} // verus!
