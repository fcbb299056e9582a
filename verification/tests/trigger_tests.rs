use gh_lsp::trigger::parse_trigger;

#[test]
fn sigil_alone_has_empty_needle() {
    // cursor right after the `#` at the end of the line
    let line = "see issue #";
    let tc = parse_trigger(line, 0, line.chars().count());
    assert_eq!(tc.sigil, Some('#'));
    assert_eq!(tc.needle, "");
}

#[test]
fn sigil_with_needle() {
    // cursor right after the `c` of `#abc`
    let line = "see issue #abc";
    let tc = parse_trigger(line, 0, line.chars().count());
    assert_eq!(tc.sigil, Some('#'));
    assert_eq!(tc.needle, "abc");
}

#[test]
fn word_scan_stops_at_whitespace() {
    let tc = parse_trigger("alpha @be", 3, 9);
    assert_eq!(tc.sigil, Some('@'));
    assert_eq!(tc.needle, "be");
    assert_eq!(tc.range.line, 3);
    assert_eq!(tc.range.start_col, 6);
    assert_eq!(tc.range.end_col, 9);
}

#[test]
fn column_beyond_line_is_clamped() {
    let line = "x #ab";
    let clamped = parse_trigger(line, 0, 999);
    let exact = parse_trigger(line, 0, line.chars().count());
    assert_eq!(clamped.sigil, exact.sigil);
    assert_eq!(clamped.needle, exact.needle);
    assert_eq!(clamped.range, exact.range);
}

#[test]
fn empty_word_has_no_sigil() {
    let tc = parse_trigger("a ", 0, 2);
    assert_eq!(tc.sigil, None);
    assert_eq!(tc.needle, "");
}

#[test]
fn replacement_range_saturates_at_line_start() {
    let tc = parse_trigger("", 0, 0);
    assert_eq!(tc.sigil, None);
    assert_eq!(tc.range.start_col, 0);
    assert_eq!(tc.range.end_col, 0);
}

#[test]
fn mid_line_cursor_takes_prefix_of_word() {
    // cursor after `#4` within `#42x`: only the prefix up to the cursor counts
    let line = "a #42x";
    let tc = parse_trigger(line, 0, 4);
    assert_eq!(tc.sigil, Some('#'));
    assert_eq!(tc.needle, "4");
    assert_eq!(tc.range.start_col, 2);
    assert_eq!(tc.range.end_col, 4);
}

#[test]
fn word_scan_stops_at_non_ascii_whitespace() {
    // U+00A0 (no-break space) has the Unicode White_Space property and
    // bounds the word like an ordinary space
    let line = "a\u{00A0}#xy";
    let tc = parse_trigger(line, 0, 5);
    assert_eq!(tc.sigil, Some('#'));
    assert_eq!(tc.needle, "xy");
}
