use runefix_cli::range_expr::{parse_slice_range, ParsedRange, RangeExprError};

#[test]
fn full_form() {
    assert_eq!(parse_slice_range("[1:4]"), Ok(ParsedRange { start: 1, end: Some(4) }));
}

#[test]
fn shorthand_form() {
    assert_eq!(parse_slice_range("[3]"), Ok(ParsedRange { start: 3, end: Some(4) }));
}

#[test]
fn single_quoted_open_start() {
    assert_eq!(parse_slice_range("'[:2]'"), Ok(ParsedRange { start: 0, end: Some(2) }));
}

#[test]
fn double_quoted() {
    assert_eq!(parse_slice_range("\"[1]\""), Ok(ParsedRange { start: 1, end: Some(2) }));
}

#[test]
fn open_end() {
    assert_eq!(parse_slice_range("[2:]"), Ok(ParsedRange { start: 2, end: None }));
}

#[test]
fn both_sides_open() {
    assert_eq!(parse_slice_range("[:]"), Ok(ParsedRange { start: 0, end: None }));
}

#[test]
fn shorthand_equals_full_form() {
    assert_eq!(parse_slice_range("[7]"), parse_slice_range("[7:8]"));
}

#[test]
fn interior_space_rejected() {
    assert_eq!(parse_slice_range("[ 1:3]"), Err(RangeExprError::InteriorSpaces));
    assert_eq!(parse_slice_range("[1 : 3]"), Err(RangeExprError::InteriorSpaces));
}

#[test]
fn leading_space_rejected() {
    assert_eq!(parse_slice_range(" [1:3]"), Err(RangeExprError::TrimViolation));
    assert_eq!(parse_slice_range("'[1:3] '"), Err(RangeExprError::TrimViolation));
}

#[test]
fn missing_brackets_rejected() {
    assert_eq!(parse_slice_range("1:3"), Err(RangeExprError::MissingBrackets));
    assert_eq!(parse_slice_range("(1:3)"), Err(RangeExprError::MissingBrackets));
    assert_eq!(parse_slice_range(""), Err(RangeExprError::MissingBrackets));
}

#[test]
fn bad_single_index_rejected() {
    assert_eq!(parse_slice_range("[x]"), Err(RangeExprError::SingleIndexFormat));
    assert_eq!(parse_slice_range("[]"), Err(RangeExprError::SingleIndexFormat));
    assert_eq!(parse_slice_range("[-1]"), Err(RangeExprError::SingleIndexFormat));
}

#[test]
fn bad_start_rejected() {
    assert_eq!(parse_slice_range("[x:2]"), Err(RangeExprError::StartIndexFormat));
}

#[test]
fn bad_end_rejected() {
    assert_eq!(parse_slice_range("[1:y]"), Err(RangeExprError::EndIndexFormat));
}

#[test]
fn two_colons_rejected() {
    assert_eq!(parse_slice_range("[1:2:3]"), Err(RangeExprError::MalformedRange));
}

#[test]
fn reversed_range_still_parses() {
    assert_eq!(parse_slice_range("[5:2]"), Ok(ParsedRange { start: 5, end: Some(2) }));
}

#[test]
fn huge_index_rejected() {
    // 2^64 does not fit in usize.
    assert_eq!(
        parse_slice_range("[18446744073709551616]"),
        Err(RangeExprError::SingleIndexFormat)
    );
}
