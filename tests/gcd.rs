use mandel::gcd::{check_numbers, gcd, gcd_of_all};

#[test]
fn test_gcd() {
    assert_eq!(gcd(14, 15), 1);
    assert_eq!(gcd(2 * 3 * 11 * 17, 3 * 7 * 11 * 13 * 19), 3 * 11)
}

#[test]
fn gcd_of_equal_numbers() {
    assert_eq!(gcd(42, 42), 42);
}

#[test]
fn gcd_either_order() {
    assert_eq!(gcd(12, 18), 6);
    assert_eq!(gcd(18, 12), 6);
}

#[test]
fn gcd_with_one() {
    assert_eq!(gcd(1, u64::MAX), 1);
    assert_eq!(gcd(u64::MAX, u64::MAX), u64::MAX);
}

#[test]
fn gcd_of_all_numbers() {
    assert_eq!(gcd_of_all(&vec![24, 60, 36]), 12);
    assert_eq!(gcd_of_all(&vec![7]), 7);
    assert_eq!(gcd_of_all(&vec![14, 15, 21]), 1);
}

#[test]
fn check_numbers_empty() {
    assert_eq!(check_numbers(&vec![]), Err("given empty array.".to_string()));
}

#[test]
fn check_numbers_non_empty() {
    assert_eq!(check_numbers(&vec![3]), Ok(()));
    assert_eq!(check_numbers(&vec![0, 5]), Ok(()));
}
