use gruff_plot::data::text_file::{line_is_defined, next_column_count, parse_float_span, parse_line, skip_spaces};

#[test]
fn skip_spaces_finds_first_non_blank() {
    assert_eq!(skip_spaces("  \t12"), 3);
    assert_eq!(skip_spaces("12"), 0);
}

#[test]
fn skip_spaces_of_blank_text_is_zero() {
    assert_eq!(skip_spaces("   "), 0);
    assert_eq!(skip_spaces(""), 0);
}

#[test]
fn number_span_after_blanks() {
    assert_eq!(parse_float_span("  1.5e3, 2"), (2, 7));
    assert_eq!(parse_float_span("-4;"), (0, 2));
}

#[test]
fn number_span_reaching_the_end() {
    assert_eq!(parse_float_span("42"), (0, 2));
}

#[test]
fn one_column_line() {
    let l = parse_line("1.5\n");
    assert_eq!(l.first, (0, 3));
    assert_eq!(l.second, None);
    let l = parse_line("  7  \r\n");
    assert_eq!(l.first, (2, 3));
    assert_eq!(l.second, None);
}

#[test]
fn two_column_line_with_comma() {
    let l = parse_line("1.5, 2\n");
    assert_eq!(l.first, (0, 3));
    assert_eq!(l.second, Some((5, 6)));
}

#[test]
fn two_column_line_with_semicolon_and_blanks() {
    let l = parse_line("0.25 ;\t-3e2\n");
    assert_eq!(l.first, (0, 4));
    assert_eq!(l.second, Some((7, 11)));
}

#[test]
fn two_column_line_with_blank_separator() {
    let l = parse_line("1 2");
    assert_eq!(l.first, (0, 1));
    assert_eq!(l.second, Some((2, 3)));
}

#[test]
fn column_count_is_kept_while_lines_agree() {
    assert_eq!(next_column_count(None, 2), Some(2));
    assert_eq!(next_column_count(Some(2), 2), Some(2));
    assert_eq!(next_column_count(Some(1), 2), None);
    assert_eq!(next_column_count(Some(2), 1), None);
}

#[test]
fn line_layout_is_defined_unless_number_runs_off() {
    assert!(line_is_defined("  12\n"));
    assert!(line_is_defined("12"));
    assert!(line_is_defined(""));
    assert!(line_is_defined("abc"));
    assert!(!line_is_defined("  12"));
}

#[test]
fn columns_agree_over_lines() {
    let mut c = None;
    for n in [2u8, 2, 2] {
        c = next_column_count(c, n);
    }
    assert_eq!(c, Some(2));
    assert_eq!(next_column_count(next_column_count(None, 1), 2), None);
}
