use auto_esj::book::ranges::{collect_ranges, parse_ranges};
use auto_esj::error::Error;

#[test]
fn single_numbers_and_ranges() {
    assert_eq!(parse_ranges("1,3-5,7-"), Ok(vec![(1, 1), (3, 5), (7, usize::MAX)]));
}

#[test]
fn output_is_sorted_by_start() {
    assert_eq!(parse_ranges("5,1-2,3"), Ok(vec![(1, 2), (3, 3), (5, 5)]));
}

#[test]
fn ranges_are_not_merged() {
    assert_eq!(parse_ranges("2,2,1-4"), Ok(vec![(1, 4), (2, 2), (2, 2)]));
}

#[test]
fn whitespace_around_tokens_is_allowed() {
    assert_eq!(parse_ranges("  1 ,\t2-4 , 9- "), Ok(vec![(1, 1), (2, 4), (9, usize::MAX)]));
}

#[test]
fn double_comma_is_rejected() {
    assert_eq!(parse_ranges("1,,3"), Err(Error::InvalidRangeSyntax));
}

#[test]
fn letters_are_rejected() {
    assert_eq!(parse_ranges("abc"), Err(Error::InvalidRangeSyntax));
}

#[test]
fn empty_input_is_rejected() {
    assert_eq!(parse_ranges(""), Err(Error::InvalidRangeSyntax));
    assert_eq!(parse_ranges("   "), Err(Error::InvalidRangeSyntax));
}

#[test]
fn missing_start_is_rejected_by_the_grammar() {
    assert_eq!(parse_ranges("-5"), Err(Error::InvalidRangeSyntax));
}

#[test]
fn trailing_comma_is_rejected() {
    assert_eq!(parse_ranges("1,2,"), Err(Error::InvalidRangeSyntax));
}

#[test]
fn inner_whitespace_is_rejected() {
    assert_eq!(parse_ranges("1 - 3"), Err(Error::InvalidRangeSyntax));
}

#[test]
fn open_end_reaches_the_largest_number() {
    assert_eq!(parse_ranges("4-"), Ok(vec![(4, usize::MAX)]));
}

#[test]
fn end_too_large_counts_as_open() {
    assert_eq!(parse_ranges("3-99999999999999999999999999"), Ok(vec![(3, usize::MAX)]));
}

#[test]
fn number_too_large_stands_for_nothing() {
    assert_eq!(parse_ranges("99999999999999999999999999"), Ok(vec![]));
    assert_eq!(parse_ranges("2,99999999999999999999999999"), Ok(vec![(2, 2)]));
}

#[test]
fn reversed_bounds_are_exchanged() {
    assert_eq!(parse_ranges("5-3"), Ok(vec![(3, 5)]));
    assert_eq!(parse_ranges("9-1,4"), Ok(vec![(1, 9), (4, 4)]));
    assert_eq!(parse_ranges("7-7"), Ok(vec![(7, 7)]));
}

#[test]
fn no_start_lies_above_its_end() {
    for input in ["5-3", "1,9-2,3-", "10-0", "2-1,1-2", "8-99999999999999999999999", "99999999999999999999999-8"] {
        let ranges = parse_ranges(input).unwrap();
        assert!(!ranges.is_empty());
        assert!(ranges.iter().all(|(start, end)| start <= end), "{}", input);
        assert!(ranges.windows(2).all(|pair| pair[0].0 <= pair[1].0), "{}", input);
    }
}

#[test]
fn start_too_large_counts_as_one() {
    assert_eq!(parse_ranges("99999999999999999999999-8"), Ok(vec![(1, 8)]));
}

#[test]
fn collecting_defaults_a_missing_start_to_one() {
    assert_eq!(collect_ranges("-5"), vec![(1, 5)]);
    assert_eq!(collect_ranges("x-7"), vec![(1, 7)]);
}

#[test]
fn collecting_reads_only_the_first_two_bounds() {
    assert_eq!(collect_ranges("1-2-3"), vec![(1, 2)]);
}

#[test]
fn collecting_skips_what_is_no_number() {
    assert_eq!(collect_ranges("a,2,,3"), vec![(2, 2), (3, 3)]);
    assert_eq!(collect_ranges(""), vec![]);
}

#[test]
fn collecting_is_stable_for_equal_starts() {
    assert_eq!(collect_ranges("3-9,1,3-4,3"), vec![(1, 1), (3, 9), (3, 4), (3, 3)]);
    assert_eq!(collect_ranges("9-3,1,3-4"), vec![(1, 1), (3, 9), (3, 4)]);
}

#[test]
fn every_token_of_a_valid_selection_has_its_range() {
    let ranges = parse_ranges("10-12,1,4-").unwrap();
    assert!(ranges.contains(&(10, 12)));
    assert!(ranges.contains(&(1, 1)));
    assert!(ranges.contains(&(4, usize::MAX)));
    assert_eq!(ranges.len(), 3);
}
