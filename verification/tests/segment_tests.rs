use runefix_cli::segment::{split_str_units, SliceMode};

#[test]
fn char_mode_abc() {
    let (units, bounds) = split_str_units("abc", SliceMode::Char);
    assert_eq!(units, vec!["a".to_string(), "b".to_string(), "c".to_string()]);
    assert_eq!(bounds, vec![0, 1, 2, 3]);
}

#[test]
fn char_mode_multibyte() {
    let (units, bounds) = split_str_units("你a", SliceMode::Char);
    assert_eq!(units, vec!["你".to_string(), "a".to_string()]);
    assert_eq!(bounds, vec![0, 1, 2]);
}

#[test]
fn grapheme_mode_combining() {
    // The combining accent stays with its base character.
    let (units, bounds) = split_str_units("e\u{301}x", SliceMode::Grapheme);
    assert_eq!(units, vec!["e\u{301}".to_string(), "x".to_string()]);
    assert_eq!(bounds, vec![0, 1, 2]);
}

#[test]
fn width_mode_wide_and_narrow() {
    let (units, bounds) = split_str_units("你a", SliceMode::Width);
    assert_eq!(units, vec!["你".to_string(), "a".to_string()]);
    assert_eq!(bounds, vec![0, 2, 3]);
}

#[test]
fn width_mode_zero_width_attaches_forward() {
    // A zero-width control character is buffered and attaches to the next
    // width-contributing grapheme, not the previous one.
    let (units, bounds) = split_str_units("\u{1}a", SliceMode::Width);
    assert_eq!(units, vec!["\u{1}a".to_string()]);
    assert_eq!(bounds, vec![0, 1]);
}

#[test]
fn width_mode_trailing_zero_width_repeats_boundary() {
    // A trailing all-zero-width buffer is flushed as a final unit whose
    // boundary repeats the last cumulative width.
    let (units, bounds) = split_str_units("a\u{1}", SliceMode::Width);
    assert_eq!(units, vec!["a".to_string(), "\u{1}".to_string()]);
    assert_eq!(bounds, vec![0, 1, 1]);
}

#[test]
fn empty_input_every_mode() {
    for mode in [SliceMode::Char, SliceMode::Grapheme, SliceMode::Width] {
        let (units, bounds) = split_str_units("", mode);
        assert!(units.is_empty());
        assert_eq!(bounds, vec![0]);
    }
}

#[test]
fn segmentation_is_lossless_partition() {
    // Concatenating the unit sequence reproduces the input, in every mode.
    let inputs = ["", "abc", "你好 world", "e\u{301}x", "👩\u{200D}❤\u{FE0F}", "a\u{1}b"];
    for input in inputs {
        for mode in [SliceMode::Char, SliceMode::Grapheme, SliceMode::Width] {
            let (units, _) = split_str_units(input, mode);
            assert_eq!(units.concat(), input);
        }
    }
}

#[test]
fn boundary_tables_start_at_zero_and_never_decrease() {
    let inputs = ["", "abc", "你好 world", "a\u{1}", "\u{1}\u{2}"];
    for input in inputs {
        for mode in [SliceMode::Char, SliceMode::Grapheme, SliceMode::Width] {
            let (units, bounds) = split_str_units(input, mode);
            assert_eq!(bounds[0], 0);
            assert_eq!(bounds.len(), units.len() + 1);
            for w in bounds.windows(2) {
                assert!(w[0] <= w[1]);
            }
        }
    }
}
