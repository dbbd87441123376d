use bitstrings::conditional::select;
use bitstrings::{Array, BadLength, GlobalBoolean, GlobalFalse, GlobalTrue, Tape};

fn tape(digits: &str) -> Tape {
    Tape::parse(digits).unwrap()
}

#[test]
fn arrays() {
    let untrimmed = Array::<u8>::new(&tape("010"));
    let a2 = Array::<u8>::new(&tape("10"));
    let a3 = Array::<u8>::new(&tape("11"));
    let a14 = Array::<u8>::new(&tape("1110"));
    let a5_long = Array::<u32>::new(&tape("101"));

    assert_eq!(untrimmed.len() * size_of::<u8>(), 2);
    assert_eq!(a2.len() * size_of::<u8>(), 2);
    assert_eq!(a3.len() * size_of::<u8>(), 3);
    assert_eq!(a14.len() * size_of::<u8>(), 14);
    assert_eq!(a5_long.len() * size_of::<u32>(), 4 * 5);
}

#[test]
fn arrays_runtime() {
    let five = tape("101");

    assert!(Array::<u32>::try_from_slice(&five, &[0u32; 5]).is_ok());
    assert!(Array::<u32>::try_from_slice(&five, &[0u32; 4]).is_err());

    let zeroed = Array::<u32>::new(&five);
    assert_eq!(zeroed.as_slice(), &[0u32; 5]);
}

#[test]
fn bad_length_reports_both_lengths() {
    let five = tape("101");
    let err = Array::<u32>::try_from_slice(&five, &[1, 2, 3, 4]).unwrap_err();
    assert_eq!(err, BadLength { found: 4, expected: 5 });
    let err = Array::<String>::try_new_from_slice(&five, &[]).unwrap_err();
    assert_eq!(err, BadLength { found: 0, expected: 5 });
    let err = Array::<u8>::try_new_boxed_from_slice(&tape("0"), &[7]).unwrap_err();
    assert_eq!(err, BadLength { found: 1, expected: 0 });
}

#[test]
fn arrays_from_slices() {
    let five = tape("101");
    let a = Array::from_slice(&five, &[1u32, 2, 3, 4, 5]);
    assert_eq!(a.as_slice(), &[1, 2, 3, 4, 5]);
    assert_eq!(a.len(), 5);

    let words = ["a".to_string(), "b".to_string()];
    let b = Array::new_from_slice(&tape("10"), &words);
    assert_eq!(b.as_slice(), &words);
    let c = Array::new_boxed_from_slice(&tape("10"), &words);
    assert_eq!(c.get(1), "b");
    let d = Array::try_new_from_slice(&tape("0010"), &words).unwrap();
    assert_eq!(d.len(), 2);

    let mut e = Array::<u8>::new_boxed(&tape("11"));
    e.set(2, 9);
    assert_eq!(e.as_slice(), &[0, 0, 9]);
    let empty = Array::<u8>::new(&tape("0"));
    assert_eq!(empty.len(), 0);
}

#[test]
fn select_runs_only_the_chosen_branch() {
    assert_eq!(select(true, || 1, || -> i32 { panic!("else branch forced") }), 1);
    assert_eq!(select(false, || -> i32 { panic!("then branch forced") }, || 2), 2);
    assert_eq!(GlobalTrue::select(|| "then", || -> &str { panic!("else branch forced") }), "then");
    assert_eq!(GlobalFalse::select(|| -> &str { panic!("then branch forced") }, || "else"), "else");
    assert!(GlobalTrue::value());
    assert!(!GlobalFalse::value());
}
