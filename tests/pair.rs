use mandel::pair::{parse_pair, split_pair};

/// Reads both fields of a pair as floating-point numbers.
fn parse_pair_f64(s: &str, separator: char) -> Option<(f64, f64)> {
    let (left, right) = split_pair(s, separator)?;
    match (left.parse::<f64>(), right.parse::<f64>()) {
        (Ok(l), Ok(r)) => Some((l, r)),
        _ => None,
    }
}

#[test]
fn test_parse_pair_empty() {
    assert_eq!(parse_pair::<i32>(",", ','), None);
}

#[test]
fn test_parse_pair_missing_field2() {
    assert_eq!(parse_pair::<i32>("1,", ','), None);
}

#[test]
fn test_parse_pair_missing_field1() {
    assert_eq!(parse_pair::<i32>(",1", ','), None);
}

#[test]
fn test_parse_pair_wrong_field() {
    assert_eq!(parse_pair_f64("1adf,1", ','), None);
}

#[test]
fn test_parse_pair_i32() {
    assert_eq!(parse_pair::<i32>("1,1", ','), Some((1, 1)));
}

#[test]
fn test_parse_pair_f64() {
    assert_eq!(parse_pair_f64("1,1", ','), Some((1.0, 1.0)));
}

#[test]
fn test_parse_pair_leading_space() {
    assert_eq!(parse_pair_f64(" 1,1", ','), Some((1.0, 1.0)));
}

#[test]
fn test_parse_pair_trailing_space() {
    assert_eq!(parse_pair_f64("1,1 ", ','), Some((1.0, 1.0)));
}

#[test]
fn pair_without_separator() {
    assert_eq!(parse_pair::<i32>("11", ','), None);
    assert_eq!(parse_pair::<i32>("", ','), None);
    assert_eq!(parse_pair::<usize>("800,600", 'x'), None);
}

#[test]
fn pair_with_unreadable_field() {
    assert_eq!(parse_pair::<i32>("1adf,1", ','), None);
    assert_eq!(parse_pair::<i32>("1,x", ','), None);
    assert_eq!(parse_pair::<usize>("-1,1", ','), None);
}

#[test]
fn pair_of_sizes() {
    assert_eq!(parse_pair::<usize>("800x600", 'x'), Some((800, 600)));
    assert_eq!(parse_pair::<usize>("+3x4", 'x'), Some((3, 4)));
}

#[test]
fn pair_with_signs() {
    assert_eq!(parse_pair::<i32>("-12,+7", ','), Some((-12, 7)));
    assert_eq!(parse_pair::<i32>("-,7", ','), None);
}

#[test]
fn pair_at_the_limits() {
    assert_eq!(
        parse_pair::<i32>("-2147483648,2147483647", ','),
        Some((i32::MIN, i32::MAX))
    );
    assert_eq!(parse_pair::<i32>("2147483648,0", ','), None);
}

#[test]
fn pair_splits_at_first_separator() {
    assert_eq!(parse_pair::<i32>("1,2,3", ','), None);
    assert_eq!(split_pair("1,2,3", ','), Some(("1", "2,3")));
}

#[test]
fn pair_with_outer_space() {
    assert_eq!(parse_pair::<i32>(" 1,1", ','), Some((1, 1)));
    assert_eq!(parse_pair::<i32>("1,1 ", ','), Some((1, 1)));
    assert_eq!(parse_pair::<i32>("\t 5,6\n", ','), Some((5, 6)));
    assert_eq!(split_pair("  a,b  ", ','), Some(("a", "b")));
}

#[test]
fn pair_with_inner_space() {
    assert_eq!(parse_pair::<i32>("1 ,1", ','), None);
    assert_eq!(parse_pair::<i32>("1, 1", ','), None);
    assert_eq!(split_pair("1, 1", ','), Some(("1", " 1")));
}

#[test]
fn split_without_separator() {
    assert_eq!(split_pair("abc", ','), None);
    assert_eq!(split_pair("   ", ','), None);
}

#[test]
fn split_with_wide_separator() {
    assert_eq!(split_pair("3\u{d7}4", '\u{d7}'), Some(("3", "4")));
    assert_eq!(parse_pair::<usize>("3\u{d7}4", '\u{d7}'), Some((3, 4)));
}
