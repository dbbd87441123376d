use bitstrings::gates::{
    bit_and, bit_mux, bit_nand, bit_nor, bit_not, bit_or, bit_xnor, bit_xor, nand, nor, xnor, xor,
};
use bitstrings::Bit::{B0, B1};
use bitstrings::{Bit, Bitstring, Tape};

fn tape(digits: &str) -> Tape {
    Tape::parse(digits).unwrap()
}

#[test]
fn bitstrings() {
    let t10 = Tape::new(&Bit::B1, Bit::B0);
    let t101 = Tape::new(&Tape::new(&Bit::B1, Bit::B0), Bit::B1);

    assert_eq!(t10.or(&t101).render(), "111");
    assert_eq!(t10.and(&t101).render(), "0");
    assert_eq!(t101.or(&t10).render(), "111");
    assert_eq!(t101.and(&t10).render(), "0");

    let t910 = tape("1110001110");
    assert_eq!(t910.unsigned(), 910);
}

#[test]
fn parse_and_render() {
    assert_eq!(tape("0101").render(), "0101");
    assert_eq!(tape("0").render(), "0");
    assert_eq!(tape("1").unsigned(), 1);
    assert!(Tape::parse("").is_none());
    assert!(Tape::parse("102").is_none());
    assert!(Tape::parse(" 1").is_none());
    assert_eq!(Bit::B1.render(), "1");
}

#[test]
fn render_round_trip() {
    for s in ["0", "1", "10", "0110", "1110001110"] {
        let t = tape(s);
        let back = Tape::parse(&t.render()).unwrap();
        assert_eq!(back.unsigned(), t.unsigned());
        assert_eq!(back, t);
    }
}

#[test]
fn trim_idempotent() {
    for s in ["0", "000", "0010", "1", "1000", "00111"] {
        let once = tape(s).trimmed();
        assert_eq!(once.trimmed(), once);
    }
    assert_eq!(tape("0000").trimmed().render(), "0");
    assert_eq!(tape("0010").trimmed().render(), "10");
    assert!(tape("000").trimmed().is_b0());
    assert!(!tape("10").is_b0());
}

#[test]
fn head_and_lsb() {
    let t = tape("101");
    assert_eq!(t.head().render(), "10");
    assert_eq!(t.lsb(), Bit::B1);
    assert_eq!(Bit::B1.head().render(), "0");
    assert_eq!(tape("1").head().render(), "0");
    assert_eq!(t.bit_len(), 3);
    assert_eq!(t.bit(1), Bit::B0);
    assert_eq!(t.bit(7), Bit::B0);
}

#[test]
fn and_or_commute_and_idempotent() {
    let samples = ["0", "1", "10", "0011", "1101", "100101"];
    for a in samples {
        for b in samples {
            assert_eq!(tape(a).and(&tape(b)), tape(b).and(&tape(a)));
            assert_eq!(tape(a).or(&tape(b)), tape(b).or(&tape(a)));
        }
        assert_eq!(tape(a).and(&tape(a)), tape(a).trimmed());
        assert_eq!(tape(a).or(&tape(a)), tape(a).trimmed());
    }
    assert_eq!(tape("1100").and(&tape("1010")).render(), "1000");
    assert_eq!(tape("1100").or(&tape("11")).render(), "1111");
}

#[test]
fn not_flips_the_representation() {
    assert_eq!(tape("10").not().render(), "1");
    assert_eq!(tape("010").not().render(), "101");
    assert_eq!(tape("0").not().render(), "1");
    assert_eq!(tape("111").not().render(), "0");
    assert_eq!(Bit::B1.not().render(), "0");
}

#[test]
fn bit_gates() {
    assert_eq!(bit_and(B1, B1), B1);
    assert_eq!(bit_and(B1, B0), B0);
    assert_eq!(bit_or(B0, B0), B0);
    assert_eq!(bit_or(B0, B1), B1);
    assert_eq!(bit_not(B0), B1);
    assert_eq!(bit_xor(B1, B1), B0);
    assert_eq!(bit_xor(B0, B1), B1);
    assert_eq!(bit_nand(B1, B1), B0);
    assert_eq!(bit_nor(B0, B0), B1);
    assert_eq!(bit_xnor(B1, B1), B1);
    assert_eq!(bit_mux(B0, B1, B0), B1);
    assert_eq!(bit_mux(B1, B1, B0), B0);
}

#[test]
fn bitstring_gates() {
    assert_eq!(xor(&tape("1100"), &tape("1010")).render(), "110");
    assert_eq!(xor(&tape("101"), &tape("101")).render(), "0");
    // NOT flips only the operand's own bits: NOT 1 is 0, so 10 XOR 1 is 1.
    assert_eq!(xor(&tape("10"), &tape("1")).render(), "1");
    assert_eq!(nand(&tape("11"), &tape("11")).render(), "0");
    assert_eq!(nand(&tape("10"), &tape("01")).render(), "1");
    assert_eq!(nor(&tape("100"), &tape("1")).render(), "10");
    assert_eq!(xnor(&tape("1100"), &tape("1010")).render(), "1");
}
