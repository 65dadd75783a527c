use jet::number::Number;

fn to_jet(n: Number) -> jet_proto_math::Number {
    let (lo, mid, hi) = n.words();
    bytemuck::cast([lo, mid, hi])
}

#[test]
fn number_integer_arithmetic() {
    let three = Number::from_u64(3);
    let four = Number::from_u64(4);
    assert_eq!(three.mul(four).as_u64(0), 12);
    assert_eq!(three.add(four).as_u64(0), 7);
    assert_eq!(four.sub(three).as_u64(0), 1);
    assert_eq!(Number::from_u64(12).div(four).as_u64(0), 3);
    assert_eq!(Number::one().as_u64(0), 1);
    assert_eq!(Number::zero().as_u64(0), 0);
}

#[test]
fn number_fractions_and_rounding() {
    let q = Number::from_u64(10).div(Number::from_u64(4));
    assert_eq!(q.as_u64(0), 2);
    assert_eq!(q.as_u64_rounded(0), 3);
    assert_eq!(q.as_u64(-1), 25);
    let third = Number::from_u64(1).div(Number::from_u64(3));
    assert_eq!(third.as_u64(-15), 333_333_333_333_333);
    assert_eq!(third.as_u64_rounded(0), 0);
}

#[test]
fn number_decimals_and_bps() {
    let r = Number::from_bps(12500);
    assert_eq!(r.as_u64(-2), 125);
    assert_eq!(r.as_u64(0), 1);
    let d = Number::from_decimal(1242, -3);
    assert_eq!(d.as_u64(-3), 1242);
    assert_eq!(d.as_u64_rounded(0), 1);
    assert_eq!(Number::from_decimal(5, 1).as_u64(0), 50);
    assert_eq!(Number::from_decimal(7, 0), Number::from_u64(7));
}

#[test]
fn number_ordering() {
    let a = Number::from_u64(2);
    let b = Number::from_u64(3);
    assert!(a.lt(&b));
    assert!(!b.lt(&a));
    assert!(a.le(&a));
    assert!(!a.lt(&a));
    assert_eq!(a.min(b), a);
    assert_eq!(b.min(a), a);
    assert_eq!(a.max(b), b);
    assert_eq!(b.max(a), b);
}

#[test]
fn number_words_round_trip() {
    let n = Number::from_words(1, 2, 3);
    assert_eq!(n.words(), (1, 2, 3));
    assert_eq!(Number::from_u64(1).words(), (1_000_000_000_000_000, 0, 0));
}

#[test]
fn number_agrees_with_jet_proto_math() {
    let a = Number::from_decimal(1242, -3);
    let b = Number::from_bps(12500);
    let ja = jet_proto_math::Number::from_decimal(1242u64, -3);
    let jb = jet_proto_math::Number::from_bps(12500);
    assert!(to_jet(a) == ja);
    assert!(to_jet(b) == jb);
    assert!(to_jet(a.mul(b)) == ja * jb);
    assert!(to_jet(a.div(b)) == ja / jb);
    assert!(to_jet(a.add(b)) == ja + jb);
    assert!(to_jet(b.sub(a)) == jb - ja);
    assert_eq!(a.as_u64_rounded(-2), ja.as_u64_rounded(-2));
}
