use runefix_cli::lines::{slice_line, slice_lines, LineOutcome, SliceCmdError};
use runefix_cli::range_expr::{parse_slice_range, ParsedRange, RangeExprError};
use runefix_cli::resolve::{resolve_slice, SliceError};
use runefix_cli::segment::{split_str_units, SliceMode};

fn units_of(strs: &[&str]) -> Vec<String> {
    strs.iter().map(|s| s.to_string()).collect()
}

#[test]
fn lenient_window_has_requested_size() {
    // [2:5] over eight grapheme units selects exactly three of them.
    let (units, bounds) = split_str_units("abcdefgh", SliceMode::Grapheme);
    let range = ParsedRange { start: 2, end: Some(5) };
    let rs = resolve_slice(&units, &bounds, &range, SliceMode::Grapheme, false).unwrap();
    assert_eq!(rs.sliced_text, "cde");
    assert_eq!(rs.unit_total, 8);
    assert_eq!(rs.resolved_start, 2);
    assert_eq!(rs.resolved_end, 5);
}

#[test]
fn strict_out_of_bounds() {
    let units = units_of(&["a", "b"]);
    let bounds = vec![0, 1, 2];
    let range = ParsedRange { start: 0, end: Some(4) };
    let r = resolve_slice(&units, &bounds, &range, SliceMode::Grapheme, true);
    assert_eq!(r.unwrap_err(), SliceError::OutOfBounds { len: 2 });
}

#[test]
fn strict_rejects_reversed_range() {
    let units = units_of(&["a", "b", "c"]);
    let bounds = vec![0, 1, 2, 3];
    let range = ParsedRange { start: 2, end: Some(1) };
    let r = resolve_slice(&units, &bounds, &range, SliceMode::Char, true);
    assert_eq!(r.unwrap_err(), SliceError::OutOfBounds { len: 3 });
}

#[test]
fn lenient_reversed_range_is_empty_success() {
    let units = units_of(&["a", "b", "c"]);
    let bounds = vec![0, 1, 2, 3];
    let range = ParsedRange { start: 2, end: Some(1) };
    let rs = resolve_slice(&units, &bounds, &range, SliceMode::Char, false).unwrap();
    assert_eq!(rs.sliced_text, "");
}

#[test]
fn lenient_clamps_past_the_end() {
    let units = units_of(&["a", "b", "c"]);
    let bounds = vec![0, 1, 2, 3];
    let range = ParsedRange { start: 1, end: Some(100) };
    let rs = resolve_slice(&units, &bounds, &range, SliceMode::Grapheme, false).unwrap();
    assert_eq!(rs.sliced_text, "bc");
    assert_eq!(rs.resolved_start, 1);
    assert_eq!(rs.resolved_end, 3);
}

#[test]
fn open_end_means_rest_of_units() {
    let units = units_of(&["a", "b", "c"]);
    let bounds = vec![0, 1, 2, 3];
    let range = ParsedRange { start: 1, end: None };
    let rs = resolve_slice(&units, &bounds, &range, SliceMode::Grapheme, true).unwrap();
    assert_eq!(rs.sliced_text, "bc");
}

#[test]
fn width_strict_aligned_selects_first_glyph() {
    // A two-cell glyph then a one-cell glyph: boundaries 0, 2, 3. Both 0 and
    // 2 are boundaries, so [0:2] strictly selects exactly the wide glyph.
    let (units, bounds) = split_str_units("你a", SliceMode::Width);
    assert_eq!(bounds, vec![0, 2, 3]);
    let range = ParsedRange { start: 0, end: Some(2) };
    let rs = resolve_slice(&units, &bounds, &range, SliceMode::Width, true).unwrap();
    assert_eq!(rs.sliced_text, "你");
    assert_eq!(rs.unit_total, 3);
    assert_eq!(rs.resolved_start, 0);
    assert_eq!(rs.resolved_end, 2);
}

#[test]
fn width_strict_unaligned_reports_boundaries() {
    let (units, bounds) = split_str_units("你a", SliceMode::Width);
    let range = ParsedRange { start: 1, end: Some(3) };
    let r = resolve_slice(&units, &bounds, &range, SliceMode::Width, true);
    assert_eq!(r.unwrap_err(), SliceError::UnalignedBoundary { boundaries: vec![0, 2, 3] });
}

#[test]
fn width_lenient_snaps_forward_and_saturates() {
    // Position 1 snaps forward to the boundary at 2; position 100 saturates
    // at the end of the table (3), so the slice covers the cells [2, 3).
    let (units, bounds) = split_str_units("你a", SliceMode::Width);
    let range = ParsedRange { start: 1, end: Some(100) };
    let rs = resolve_slice(&units, &bounds, &range, SliceMode::Width, false).unwrap();
    assert_eq!(rs.sliced_text, "a");
    assert_eq!(rs.resolved_start, 2);
    assert_eq!(rs.resolved_end, 3);
    assert_eq!(rs.unit_total, 3);
}

#[test]
fn slice_line_runs_whole_pipeline() {
    let rs = slice_line("hello", "[0:4]", SliceMode::Grapheme, true).unwrap();
    assert_eq!(rs.sliced_text, "hell");
    assert_eq!(rs.unit_total, 5);
}

#[test]
fn slice_line_reports_parse_error() {
    let e = slice_line("hello", "[0:4", SliceMode::Grapheme, true).unwrap_err();
    assert_eq!(e, SliceCmdError::Expr(RangeExprError::MissingBrackets));
}

#[test]
fn single_line_failure_propagates() {
    let e = slice_lines("hi", "[0:4]", SliceMode::Grapheme, true).unwrap_err();
    assert_eq!(e, SliceCmdError::Range(SliceError::OutOfBounds { len: 2 }));
}

#[test]
fn multi_line_failure_is_isolated() {
    // With several lines, the second line's strict failure is reported under
    // its 1-based line number and the first line is still sliced.
    let out = slice_lines("hello\nhi", "[0:4]", SliceMode::Grapheme, true).unwrap();
    assert_eq!(out.len(), 2);
    match &out[0] {
        LineOutcome::Done(rs) => assert_eq!(rs.sliced_text, "hell"),
        _ => panic!("first line should slice"),
    }
    match &out[1] {
        LineOutcome::Failed { line_no, error } => {
            assert_eq!(*line_no, 2);
            assert_eq!(*error, SliceCmdError::Range(SliceError::OutOfBounds { len: 2 }));
        },
        _ => panic!("second line should fail"),
    }
}

#[test]
fn blank_lines_pass_through() {
    let out = slice_lines("ab\n\n  \ncd", "[0:1]", SliceMode::Grapheme, false).unwrap();
    assert_eq!(out.len(), 4);
    assert!(matches!(out[0], LineOutcome::Done(_)));
    assert!(matches!(out[1], LineOutcome::Blank));
    assert!(matches!(out[2], LineOutcome::Blank));
    match &out[3] {
        LineOutcome::Done(rs) => assert_eq!(rs.sliced_text, "c"),
        _ => panic!("last line should slice"),
    }
}

#[test]
fn parse_then_resolve_shorthand() {
    let range = parse_slice_range("[1]").unwrap();
    let (units, bounds) = split_str_units("abc", SliceMode::Char);
    let rs = resolve_slice(&units, &bounds, &range, SliceMode::Char, true).unwrap();
    assert_eq!(rs.sliced_text, "b");
}

#[test]
fn width_open_end_is_read_as_unit_count() {
    // An omitted end always defaults to the unit count — even in width mode,
    // where it is then interpreted as a width position. Over "你a" there are
    // two units, so "[0:]" covers the cells [0, 2): just the wide glyph.
    let rs = slice_line("你a", "[0:]", SliceMode::Width, true).unwrap();
    assert_eq!(rs.sliced_text, "你");
    assert_eq!(rs.resolved_start, 0);
    assert_eq!(rs.resolved_end, 2);
}
