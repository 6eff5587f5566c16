use franchise_dao::math::{isqrt, weighted_amount, ONE};
use franchise_dao::records::{Absence, Mark};

#[test]
fn integer_square_roots() {
    assert_eq!(isqrt(0), 0);
    assert_eq!(isqrt(1), 1);
    assert_eq!(isqrt(3), 1);
    assert_eq!(isqrt(4), 2);
    assert_eq!(isqrt(99), 9);
    assert_eq!(isqrt(100), 10);
    assert_eq!(isqrt(u128::MAX), u64::MAX as u128);
}

#[test]
fn weighted_amounts() {
    assert_eq!(weighted_amount(100, ONE), Some(100));
    assert_eq!(weighted_amount(3, ONE / 2), Some(1));
    assert_eq!(weighted_amount(5 * ONE, 2 * ONE), Some(10 * ONE));
    assert_eq!(weighted_amount(10_000 * ONE, ONE), Some(10_000 * ONE));
    assert_eq!(weighted_amount(u128::MAX, ONE), Some(u128::MAX));
    assert_eq!(weighted_amount(u128::MAX, ONE + 1), None);
    assert_eq!(weighted_amount(0, u128::MAX), Some(0));
}

fn framed(fields: &[&[u8]]) -> Vec<u8> {
    let mut out = Vec::new();
    for f in fields {
        out.extend_from_slice(&(f.len() as u32).to_be_bytes());
        out.extend_from_slice(f);
    }
    out
}

#[test]
fn mark_encoding_is_exact() {
    let m = Mark { teacher_id: 258, subject: b"math".to_vec(), score: 0, timestamp: 7 };
    assert_eq!(m.to_bytes(), framed(&[&[1, 2], b"math", &[], &[7]]));
}

#[test]
fn mark_round_trip() {
    let m = Mark { teacher_id: u64::MAX, subject: b"history".to_vec(), score: 10, timestamp: 1_700_000_000 };
    let back = Mark::from_bytes(&m.to_bytes()).unwrap();
    assert_eq!(back, m);
}

#[test]
fn mark_decoding_rejects_bad_records() {
    assert_eq!(Mark::from_bytes(&framed(&[&[1], b"x", &[2]])), None);
    let mut cut = framed(&[&[1], b"x", &[2], &[3]]);
    cut.pop();
    assert_eq!(Mark::from_bytes(&cut), None);
    assert_eq!(Mark::from_bytes(&vec![0, 0, 1]), None);
    assert_eq!(Mark::from_bytes(&framed(&[&[1, 0, 0, 0, 0, 0, 0, 0, 0], b"x", &[2], &[3]])), None);
}

#[test]
fn mark_decoding_accepts_leading_zeros_and_extra_fields() {
    let m = Mark::from_bytes(&framed(&[&[0, 0, 5], b"art", &[0], &[1, 0], b"extra"])).unwrap();
    assert_eq!(m, Mark { teacher_id: 5, subject: b"art".to_vec(), score: 0, timestamp: 256 });
}

#[test]
fn absence_round_trip_and_flag() {
    let a = Absence {
        employee_id: 3,
        day_of_week: 2,
        start_time: 800,
        end_time: 850,
        subject: b"bio".to_vec(),
        justified: true,
        reason: b"ill".to_vec(),
        timestamp: 99,
    };
    let bytes = a.to_bytes();
    assert_eq!(bytes, framed(&[&[3], &[2], &[3, 32], &[3, 82], b"bio", &[1], b"ill", &[99]]));
    assert_eq!(Absence::from_bytes(&bytes).unwrap(), a);
    let b = Absence { justified: false, ..a.clone() };
    assert_eq!(Absence::from_bytes(&b.to_bytes()).unwrap(), b);
    let two = Absence::from_bytes(&framed(&[&[3], &[2], &[1], &[1], b"", &[2], b"", &[1]])).unwrap();
    assert!(!two.justified);
    assert_eq!(Absence::from_bytes(&framed(&[&[3], &[2], &[1], &[1], b"", &[1], b""])), None);
}
