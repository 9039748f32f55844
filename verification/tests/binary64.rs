use monitr::binary64::{divide_by_1000, from_count, integer_part, is_at_least, rounded_digits};

const TWO_52: u64 = 1 << 52;

#[test]
fn counts_become_binary64_numbers() {
    assert_eq!(from_count(1), (TWO_52, 12));
    assert_eq!(from_count(3), (3 << 51, 13));
    assert_eq!(from_count(1 << 53), (TWO_52, 65));
    assert_eq!(from_count((1 << 53) + 1), (TWO_52, 65));
    assert_eq!(from_count((1 << 53) + 3), (TWO_52 + 2, 65));
    assert_eq!(from_count(u64::MAX), (TWO_52, 76));
}

#[test]
fn division_by_1000_rounds_to_nearest() {
    let (m, e) = from_count(1_000);
    assert_eq!(divide_by_1000(m, e), (TWO_52, 12));
    let (m, e) = from_count(1_015);
    let (q, s) = divide_by_1000(m, e);
    assert_eq!(s, 12);
    assert_eq!(q, 4_571_153_621_781_053);
}

#[test]
fn comparisons_and_digits() {
    let (m, e) = from_count(999);
    assert!(is_at_least(m, e, 10));
    assert!(!is_at_least(m, e, 1000));
    assert_eq!(integer_part(m, e), 999);
    let (m, e) = from_count(1_125);
    let (q, s) = divide_by_1000(m, e);
    assert!(!is_at_least(q, s, 10));
    assert_eq!(rounded_digits(q, s, 100), 112);
    assert_eq!(rounded_digits(q, s, 10), 11);
    assert_eq!(rounded_digits(q, s, 1), 1);
}
