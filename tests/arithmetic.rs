use bitstrings::{Add, Bit, Bitstring, HalfAdd, HalfSubtract, Subtract, Tape};

fn tape(digits: &str) -> Tape {
    Tape::parse(digits).unwrap()
}

fn t10() -> Tape {
    Tape::new(&Bit::B1, Bit::B0)
}

fn t01() -> Tape {
    Tape::new(&Bit::B0, Bit::B1)
}

fn t101() -> Tape {
    Tape::new(&Tape::new(&Bit::B1, Bit::B0), Bit::B1)
}

fn t110() -> Tape {
    Tape::new(&Tape::new(&Bit::B1, Bit::B1), Bit::B0)
}

fn t1011() -> Tape {
    Tape::new(&Tape::new(&Tape::new(&Bit::B1, Bit::B0), Bit::B1), Bit::B1)
}

#[test]
fn add() {
    assert_eq!(t10().sum(&t01()).render(), "11");
    assert_eq!(t01().sum(&t10()).render(), "11");
    assert_eq!(t10().sum(&t101()).render(), "111");
    assert_eq!(t101().sum(&t10()).render(), "111");
    assert_eq!(t10().sum(&t110()).render(), "1000");
    assert_eq!(t110().sum(&t10()).render(), "1000");
    assert_eq!(t101().sum(&Bit::B1).render(), "110");
}

#[test]
fn subtract() {
    assert_eq!(t10().difference(&t01()).render(), "1");
    assert_eq!(t101().difference(&t01()).render(), "100");
    assert_eq!(t110().difference(&t10()).render(), "100");

    // Underflow
    assert_eq!(t1011().difference(&t110()).render(), "101"); // 11 - 6 = 5
    assert_eq!(t110().difference(&t1011()).render(), "1011"); // 6 - 11 = 11 (mod 16)
}

#[test]
fn half_add_truth_table() {
    let bits = [Bit::B0, Bit::B1];
    for a in bits {
        for b in bits {
            for c in bits {
                let (x, y, z) = (a.is_one(), b.is_one(), c.is_one());
                assert_eq!(a.half_sum(b, c).is_one(), x ^ y ^ z);
                assert_eq!(a.half_carry(b, c).is_one(), (x && y) || ((x ^ y) && z));
            }
        }
    }
    assert_eq!(Bit::B1.half_sum(Bit::B1, Bit::B1), Bit::B1);
    assert_eq!(Bit::B1.half_carry(Bit::B1, Bit::B1), Bit::B1);
    assert_eq!(Bit::B1.half_sum(Bit::B0, Bit::B1), Bit::B0);
    assert_eq!(Bit::B1.half_carry(Bit::B0, Bit::B1), Bit::B1);
    assert_eq!(Bit::B0.half_carry(Bit::B0, Bit::B1), Bit::B0);
}

#[test]
fn half_subtract_truth_table() {
    let bits = [Bit::B0, Bit::B1];
    for a in bits {
        for b in bits {
            for c in bits {
                let (x, y, z) = (a.is_one(), b.is_one(), c.is_one());
                assert_eq!(a.half_difference(b, c).is_one(), x ^ y ^ z);
                assert_eq!(a.half_borrow(b, c).is_one(), (!x && y) || (!(x ^ y) && z));
            }
        }
    }
    assert_eq!(Bit::B0.half_difference(Bit::B1, Bit::B0), Bit::B1);
    assert_eq!(Bit::B0.half_borrow(Bit::B1, Bit::B0), Bit::B1);
    assert_eq!(Bit::B1.half_borrow(Bit::B1, Bit::B1), Bit::B1);
    assert_eq!(Bit::B1.half_borrow(Bit::B0, Bit::B1), Bit::B0);
}

#[test]
fn add_commutes_on_samples() {
    let samples = ["0", "1", "10", "0011", "111", "1000", "10110", "0"];
    for a in samples {
        for b in samples {
            assert_eq!(tape(a).sum(&tape(b)), tape(b).sum(&tape(a)));
        }
    }
}

#[test]
fn add_zero_is_trim() {
    for a in ["0", "000", "0101", "1", "1100"] {
        assert_eq!(tape(a).sum(&Bit::B0), tape(a).trimmed());
    }
    assert_eq!(tape("000110").sum(&Bit::B0).render(), "110");
}

#[test]
fn add_values() {
    let a = tape("1110001110");
    let b = tape("11001");
    assert_eq!(a.sum(&b).unsigned(), 910 + 25);
    assert_eq!(tape("1111").sum(&tape("1")).render(), "10000");
    assert_eq!(tape("0").sum(&tape("0")).render(), "0");
}

#[test]
fn sum_with_carry_untrimmed() {
    // One bit per position of the longer trimmed operand, then the carry.
    assert_eq!(t10().sum_with_carry(&t01(), Bit::B0).render(), "011");
    assert_eq!(t10().sum_with_carry(&t01(), Bit::B1).render(), "100");
    assert_eq!(tape("001").sum_with_carry(&tape("1"), Bit::B0).render(), "10");
    assert_eq!(Bit::B0.sum_with_carry(&Bit::B0, Bit::B0).render(), "00");
}

#[test]
fn difference_with_borrow_untrimmed() {
    assert_eq!(t110().difference_with_borrow(&t1011(), Bit::B0).render(), "01011");
    assert_eq!(t110().difference_with_borrow(&t10(), Bit::B1).render(), "0011");
    assert_eq!(Bit::B0.difference_with_borrow(&Bit::B1, Bit::B0).render(), "01");
}

#[test]
fn subtract_wraps_by_trimmed_width() {
    // 6 - 11 wraps modulo 2^4.
    assert_eq!(tape("110").difference(&tape("1011")).unsigned(), 11);
    // Leading zeros do not widen the modulus: 1 - 2 wraps modulo 2^2.
    assert_eq!(tape("0001").difference(&tape("10")).render(), "11");
    // 0 - 1 wraps modulo 2^1.
    assert_eq!(Bit::B0.difference(&Bit::B1).render(), "1");
    assert_eq!(tape("0").difference(&tape("0")).render(), "0");
    assert_eq!(tape("101").difference(&tape("101")).render(), "0");
}

#[test]
fn subtract_values() {
    assert_eq!(tape("1110001110").difference(&tape("11001")).unsigned(), 910 - 25);
    assert_eq!(tape("10000").difference(&tape("1")).render(), "1111");
}
