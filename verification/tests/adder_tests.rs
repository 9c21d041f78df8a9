use oxidiser::add::{Adder, AdderInput, AdderOutputValid};
use oxidiser::io_structs::{GenTestOutputValid, TestOutputValid};

#[test]
fn test_default_valid() {
    let t = TestOutputValid::default();
    assert!(!t.a);
}

#[test]
fn test_gen_default_valid() {
    let t = GenTestOutputValid::default();
    assert!(!t.a);
}

#[test]
fn adder_valid_defaults_to_false() {
    let v = AdderOutputValid::default();
    assert!(!v.out);
}

#[test]
fn adder_fires_when_both_takes_are_present() {
    let adder = Adder::default();
    let mut out: i32 = 0;
    let valid = adder.op(&AdderInput { a: Some(20), b: Some(22) }, &mut out);
    assert!(valid.out);
    assert_eq!(out, 42);
}

#[test]
fn adder_skips_when_a_take_is_absent() {
    let adder = Adder::default();
    let mut out: i32 = 7;
    let valid = adder.op(&AdderInput { a: None, b: Some(22) }, &mut out);
    assert!(!valid.out);
    assert_eq!(out, 7);
}

#[test]
fn adder_add_matches_op() {
    let adder = Adder::default();
    let mut out: i32 = 0;
    let valid = adder.add(&AdderInput { a: Some(-5), b: Some(3) }, &mut out);
    assert!(valid.out);
    assert_eq!(out, -2);

    let mut out2: i32 = 9;
    let valid2 = adder.add(&AdderInput { a: Some(1), b: None }, &mut out2);
    assert!(!valid2.out);
    assert_eq!(out2, 9);
}
