use vstd::prelude::*;

use crate::model::{
    and_bits, bit_value, bit_at, digit_of, digits, head_of, is_digit, lemma_trim, lemma_value_single,
    lemma_value_skip, not_bits, or_bits, parse_digits, trim, value,
};

mod sealed;

verus! {

/// A single binary digit.
#[derive(Clone, Copy, Debug, PartialEq, Eq, Structural)]
pub enum Bit {
    /// The bit `0`.
    B0,
    /// The bit `1`.
    B1,
}

impl Bit {
    /// Returns whether this bit is `1`.
    pub fn is_one(self) -> (r: bool)
        ensures
            r == (self == Bit::B1),
    {
        match self {
            Bit::B0 => false,
            Bit::B1 => true,
        }
    }
}

/// Operations shared by single bits and tapes of bits.
///
/// A bitstring is viewed through [`Bitstring::bits`], least significant bit
/// first. A single bit is the bitstring of length one.
pub trait Bitstring: sealed::SealedBitstring {
    /// The bits, least significant first.
    spec fn bits(&self) -> Seq<Bit>;

    /// This bitstring as a [`Tape`].
    fn to_tape(&self) -> (r: Tape)
        ensures
            r@ == self.bits(),
            self.bits().len() >= 1,
    ;

    /// Everything above the least significant bit; the single bit `0` for a
    /// bitstring of one bit.
    fn head(&self) -> (r: Tape)
        ensures
            r@ == head_of(self.bits()),
    ;

    /// The least significant bit.
    fn lsb(&self) -> (r: Bit)
        ensures
            self.bits().len() >= 1,
            r == self.bits()[0],
    ;

    /// Whether this is exactly the single bit `0`.
    fn is_b0(&self) -> (r: bool)
        ensures
            r == (self.bits() == seq![Bit::B0]),
    ;

    /// The number this bitstring denotes.
    fn unsigned(&self) -> (r: usize)
        requires
            value(self.bits()) <= usize::MAX,
        ensures
            r == value(self.bits()),
    ;

    /// This bitstring without its most significant zero bits.
    fn trimmed(&self) -> (r: Tape)
        ensures
            self.bits().len() >= 1,
            r@ == trim(self.bits()),
    ;

    /// Bitwise `AND`, trimmed.
    fn and(&self, other: &Tape) -> (r: Tape)
        ensures
            r@ == trim(and_bits(self.bits(), other@)),
    ;

    /// Bitwise `OR`, trimmed.
    fn or(&self, other: &Tape) -> (r: Tape)
        ensures
            r@ == trim(or_bits(self.bits(), other@)),
    ;

    /// Bitwise `NOT` of every bit of this representation, trimmed.
    fn not(&self) -> (r: Tape)
        ensures
            r@ == trim(not_bits(self.bits())),
    ;

    /// The binary digits, most significant first.
    fn render(&self) -> (r: String)
        ensures
            r@ == digits(self.bits()),
    ;
}

/// A bitstring of any length: a head bitstring followed by a least
/// significant bit, stored least significant bit first.
#[derive(Debug, PartialEq, Eq)]
pub struct Tape {
    bits: Vec<Bit>,
}

impl View for Tape {
    type V = Seq<Bit>;

    closed spec fn view(&self) -> Seq<Bit> {
        self.bits@
    }
}

/// Removes the most significant zero bits, keeping at least one bit.
fn trim_in_place(v: &mut Vec<Bit>)
    requires
        old(v)@.len() >= 1,
    ensures
        final(v)@ == trim(old(v)@),
{
    let ghost start = v@;
    while v.len() > 1 && v[v.len() - 1] == Bit::B0
        invariant
            v@.len() >= 1,
            trim(v@) == trim(start),
        decreases v@.len(),
    {
        let _ = v.pop();
    }
}

/// The bits of `v` from `from` up to `to`.
fn copy_range(v: &Vec<Bit>, from: usize, to: usize) -> (r: Vec<Bit>)
    requires
        from <= to <= v@.len(),
    ensures
        r@ == v@.subrange(from as int, to as int),
{
    let mut r: Vec<Bit> = Vec::new();
    let mut i: usize = from;
    while i < to
        invariant
            from <= i <= to <= v@.len(),
            r@ == v@.subrange(from as int, i as int),
        decreases to - i,
    {
        r.push(v[i]);
        i = i + 1;
    }
    r
}

/// The bit at position `i`, or `0` past the end.
fn get_bit(v: &Vec<Bit>, i: usize) -> (r: Bit)
    ensures
        r == bit_at(v@, i as int),
{
    if i < v.len() {
        v[i]
    } else {
        Bit::B0
    }
}

impl Tape {
    #[verifier::type_invariant]
    spec fn inv(self) -> bool {
        self.bits@.len() >= 1
    }

    /// The tape that holds the given bits, least significant first.
    pub(crate) fn from_bits(bits: Vec<Bit>) -> (r: Tape)
        requires
            bits@.len() >= 1,
        ensures
            r@ == bits@,
    {
        Tape { bits }
    }

    /// The number of bits in this representation, leading zeros included.
    pub fn bit_len(&self) -> (r: usize)
        ensures
            r == self@.len(),
            r >= 1,
    {
        proof {
            use_type_invariant(self);
        }
        self.bits.len()
    }

    /// The bit at position `i` (0 is the least significant), or `0` past the
    /// end.
    pub fn bit(&self, i: usize) -> (r: Bit)
        ensures
            r == bit_at(self@, i as int),
    {
        get_bit(&self.bits, i)
    }

    /// The tape of a single bit.
    pub fn from_bit(b: Bit) -> (r: Tape)
        ensures
            r@ == seq![b],
    {
        Tape { bits: vec![b] }
    }

    /// The tape with the given head and least significant bit.
    pub fn new<H: Bitstring>(head: &H, lsb: Bit) -> (r: Tape)
        ensures
            r@ == seq![lsb] + head.bits(),
    {
        let h = head.to_tape();
        let mut bits: Vec<Bit> = vec![lsb];
        let mut i: usize = 0;
        while i < h.bits.len()
            invariant
                i <= h.bits@.len(),
                bits@ == seq![lsb] + h.bits@.take(i as int),
            decreases h.bits@.len() - i,
        {
            bits.push(h.bits[i]);
            i = i + 1;
        }
        assert(h.bits@.take(h.bits@.len() as int) =~= h.bits@);
        Tape { bits }
    }

    /// Reads binary digits, most significant first; `None` where the string
    /// is empty or holds a character other than `0` and `1`.
    pub fn parse(s: &str) -> (r: Option<Tape>)
        ensures
            match r {
                Some(t) => parse_digits(s@) == Some(t@),
                None => parse_digits(s@) is None,
            },
    {
        let n = s.unicode_len();
        if n == 0 {
            return None;
        }
        let ghost cs = s@;
        let mut bits: Vec<Bit> = Vec::new();
        let mut i: usize = 0;
        while i < n
            invariant
                n == cs.len(),
                cs == s@,
                i <= n,
                bits@.len() == i,
                forall|k: int| 0 <= k < i ==> is_digit(#[trigger] cs[n - 1 - k]),
                forall|k: int|
                    0 <= k < i ==> #[trigger] bits@[k] == (if cs[n - 1 - k] == '1' {
                        Bit::B1
                    } else {
                        Bit::B0
                    }),
            decreases n - i,
        {
            let c = s.get_char(n - 1 - i);
            if c == '1' {
                bits.push(Bit::B1);
            } else if c == '0' {
                bits.push(Bit::B0);
            } else {
                assert(!is_digit(cs[n - 1 - i as int]));
                return None;
            }
            i = i + 1;
        }
        assert forall|j: int| 0 <= j < cs.len() implies is_digit(#[trigger] cs[j]) by {
            assert(cs[n - 1 - (n - 1 - j)] == cs[j]);
        }
        let t = Tape { bits };
        assert(t@ =~= parse_digits(cs)->Some_0);
        Some(t)
    }
}

impl Clone for Tape {
    fn clone(&self) -> (r: Tape)
        ensures
            r@ == self@,
    {
        self.to_tape()
    }
}

impl Bitstring for Tape {
    open spec fn bits(&self) -> Seq<Bit> {
        self@
    }

    fn to_tape(&self) -> (r: Tape) {
        proof {
            use_type_invariant(self);
        }
        Tape { bits: copy_range(&self.bits, 0, self.bits.len()) }
    }

    fn head(&self) -> (r: Tape) {
        proof {
            use_type_invariant(self);
        }
        if self.bits.len() <= 1 {
            Tape { bits: vec![Bit::B0] }
        } else {
            Tape { bits: copy_range(&self.bits, 1, self.bits.len()) }
        }
    }

    fn lsb(&self) -> (r: Bit) {
        proof {
            use_type_invariant(self);
        }
        self.bits[0]
    }

    fn is_b0(&self) -> (r: bool) {
        proof {
            use_type_invariant(self);
        }
        let r = self.bits.len() == 1 && self.bits[0] == Bit::B0;
        assert(r ==> self.bits@ =~= seq![Bit::B0]);
        r
    }

    fn unsigned(&self) -> (r: usize) {
        let ghost s = self.bits@;
        let mut acc: usize = 0;
        let mut i: usize = self.bits.len();
        assert(s.skip(s.len() as int) =~= Seq::<Bit>::empty());
        while i > 0
            invariant
                s == self.bits@,
                i <= s.len(),
                value(s) <= usize::MAX,
                acc == value(s.skip(i as int)),
            decreases i,
        {
            proof {
                lemma_value_skip(s, i - 1);
                assert(s.skip(i - 1).drop_first() =~= s.skip(i as int));
            }
            let b: usize = if self.bits[i - 1] == Bit::B1 {
                1
            } else {
                0
            };
            acc = 2 * acc + b;
            i = i - 1;
        }
        assert(s.skip(0) =~= s);
        acc
    }

    fn trimmed(&self) -> (r: Tape) {
        proof {
            use_type_invariant(self);
        }
        let mut bits = copy_range(&self.bits, 0, self.bits.len());
        assert(bits@ =~= self.bits@);
        trim_in_place(&mut bits);
        proof {
            lemma_trim(self.bits@);
        }
        Tape { bits }
    }

    fn and(&self, other: &Tape) -> (r: Tape) {
        proof {
            use_type_invariant(self);
        }
        let o = other;
        proof {
            use_type_invariant(o);
        }
        let n = if self.bits.len() >= o.bits.len() {
            self.bits.len()
        } else {
            o.bits.len()
        };
        let ghost target = and_bits(self@, o@);
        let mut bits: Vec<Bit> = Vec::new();
        let mut i: usize = 0;
        while i < n
            invariant
                n == target.len(),
                i <= n,
                target == and_bits(self@, o@),
                bits@ == target.take(i as int),
            decreases n - i,
        {
            let a = get_bit(&self.bits, i);
            let b = get_bit(&o.bits, i);
            let x = if a == Bit::B1 && b == Bit::B1 {
                Bit::B1
            } else {
                Bit::B0
            };
            bits.push(x);
            i = i + 1;
            assert(bits@ =~= target.take(i as int));
        }
        assert(bits@ =~= target);
        trim_in_place(&mut bits);
        proof {
            lemma_trim(target);
        }
        Tape { bits }
    }

    fn or(&self, other: &Tape) -> (r: Tape) {
        proof {
            use_type_invariant(self);
        }
        let o = other;
        proof {
            use_type_invariant(o);
        }
        let n = if self.bits.len() >= o.bits.len() {
            self.bits.len()
        } else {
            o.bits.len()
        };
        let ghost target = or_bits(self@, o@);
        let mut bits: Vec<Bit> = Vec::new();
        let mut i: usize = 0;
        while i < n
            invariant
                n == target.len(),
                i <= n,
                target == or_bits(self@, o@),
                bits@ == target.take(i as int),
            decreases n - i,
        {
            let a = get_bit(&self.bits, i);
            let b = get_bit(&o.bits, i);
            let x = if a == Bit::B1 || b == Bit::B1 {
                Bit::B1
            } else {
                Bit::B0
            };
            bits.push(x);
            i = i + 1;
            assert(bits@ =~= target.take(i as int));
        }
        assert(bits@ =~= target);
        trim_in_place(&mut bits);
        proof {
            lemma_trim(target);
        }
        Tape { bits }
    }

    fn not(&self) -> (r: Tape) {
        proof {
            use_type_invariant(self);
        }
        let ghost target = not_bits(self@);
        let mut bits: Vec<Bit> = Vec::new();
        let mut i: usize = 0;
        while i < self.bits.len()
            invariant
                self.bits@.len() == target.len(),
                i <= target.len(),
                target == not_bits(self@),
                bits@ == target.take(i as int),
            decreases target.len() - i,
        {
            let x = if self.bits[i] == Bit::B1 {
                Bit::B0
            } else {
                Bit::B1
            };
            bits.push(x);
            i = i + 1;
            assert(bits@ =~= target.take(i as int));
        }
        assert(bits@ =~= target);
        trim_in_place(&mut bits);
        proof {
            lemma_trim(target);
        }
        Tape { bits }
    }

    fn render(&self) -> (r: String) {
        let ghost s = self.bits@;
        let n = self.bits.len();
        let mut out = String::new();
        let mut i: usize = n;
        while i > 0
            invariant
                s == self.bits@,
                n == s.len(),
                i <= n,
                out@ == Seq::new((n - i) as nat, |j: int| digit_of(s[n - 1 - j])),
            decreases i,
        {
            let ghost before = out@;
            if self.bits[i - 1] == Bit::B1 {
                out.append("1");
                proof {
                    reveal_strlit("1");
                }
            } else {
                out.append("0");
                proof {
                    reveal_strlit("0");
                }
            }
            i = i - 1;
            assert(out@ =~= Seq::new((n - i) as nat, |j: int| digit_of(s[n - 1 - j])));
        }
        assert(out@ =~= digits(s));
        out
    }
}

impl Bitstring for Bit {
    open spec fn bits(&self) -> Seq<Bit> {
        seq![*self]
    }

    fn to_tape(&self) -> (r: Tape) {
        Tape::from_bit(*self)
    }

    fn head(&self) -> (r: Tape) {
        Tape::from_bit(Bit::B0)
    }

    fn lsb(&self) -> (r: Bit) {
        *self
    }

    fn is_b0(&self) -> (r: bool) {
        assert(seq![*self] =~= seq![Bit::B0] <==> *self == Bit::B0) by {
            if seq![*self] =~= seq![Bit::B0] {
                assert(seq![*self][0] == seq![Bit::B0][0]);
            }
        }
        *self == Bit::B0
    }

    fn unsigned(&self) -> (r: usize) {
        proof {
            lemma_value_single(*self);
        }
        match self {
            Bit::B0 => 0,
            Bit::B1 => 1,
        }
    }

    fn trimmed(&self) -> (r: Tape) {
        Tape::from_bit(*self)
    }

    fn and(&self, other: &Tape) -> (r: Tape) {
        Tape::from_bit(*self).and(other)
    }

    fn or(&self, other: &Tape) -> (r: Tape) {
        Tape::from_bit(*self).or(other)
    }

    fn not(&self) -> (r: Tape) {
        Tape::from_bit(*self).not()
    }

    fn render(&self) -> (r: String) {
        Tape::from_bit(*self).render()
    }
}

} // verus!
