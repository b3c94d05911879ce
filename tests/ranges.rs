use phpcs_lsp::ranges::{
    classify, find_line_range, find_tag_range, find_token_range, reconstruct_range, Range, Scope,
};

fn chars_of(s: &str) -> Vec<char> {
    s.chars().collect()
}

fn span(r: Range) -> (u32, u32, u32) {
    assert_eq!(r.start.line, r.end.line);
    (r.start.line, r.start.character, r.end.character)
}

#[test]
fn token_range_covers_variable() {
    let c = chars_of("    $total = getTotal();");
    assert_eq!(span(find_token_range(&c, 3, 4)), (3, 4, 10));
    assert_eq!(span(find_token_range(&c, 3, 7)), (3, 4, 10));
}

#[test]
fn token_range_word_does_not_take_sigil_on_the_right() {
    let c = chars_of("a$b");
    assert_eq!(span(find_token_range(&c, 0, 0)), (0, 0, 1));
    assert_eq!(span(find_token_range(&c, 0, 2)), (0, 0, 3));
}

#[test]
fn token_range_lone_sigil_is_one_column() {
    let c = chars_of(" $ ");
    assert_eq!(span(find_token_range(&c, 0, 1)), (0, 1, 2));
}

#[test]
fn token_range_operator_grows_both_ways() {
    let c = chars_of("if ($a !== $b)");
    assert_eq!(span(find_token_range(&c, 0, 8)), (0, 7, 10));
}

#[test]
fn token_range_whitespace_grows_right() {
    let c = chars_of("a    b");
    assert_eq!(span(find_token_range(&c, 0, 2)), (0, 2, 5));
}

#[test]
fn token_range_punctuation_is_one_column() {
    let c = chars_of("foo();");
    assert_eq!(span(find_token_range(&c, 0, 5)), (0, 5, 6));
}

#[test]
fn token_range_past_end_is_column_before() {
    let c = chars_of("abc");
    assert_eq!(span(find_token_range(&c, 1, 3)), (1, 2, 3));
    assert_eq!(span(find_token_range(&c, 1, 10)), (1, 9, 10));
    let e = chars_of("");
    assert_eq!(span(find_token_range(&e, 1, 0)), (1, 0, 0));
}

#[test]
fn tag_range_closing_tag() {
    let c = chars_of("<?php echo $x; ?>");
    assert_eq!(span(find_tag_range(&c, 0, 14)), (0, 15, 17));
}

#[test]
fn tag_range_prefers_nearest_marker() {
    let c = chars_of("<?php echo $x; ?>");
    assert_eq!(span(find_tag_range(&c, 0, 2)), (0, 0, 5));
}

#[test]
fn tag_range_short_open_tag() {
    let c = chars_of("x <? y");
    assert_eq!(span(find_tag_range(&c, 0, 0)), (0, 2, 4));
}

#[test]
fn tag_range_tie_goes_to_first_found() {
    // Both markers are five columns from column 5; the long opening tag is
    // looked for first.
    let c = chars_of("?>abcdefgh<?php");
    assert_eq!(span(find_tag_range(&c, 0, 5)), (0, 10, 15));
}

#[test]
fn tag_range_without_marker_is_two_columns() {
    let c = chars_of("echo 1;");
    assert_eq!(span(find_tag_range(&c, 2, 3)), (2, 3, 5));
    assert_eq!(span(find_tag_range(&c, 2, u32::MAX)), (2, u32::MAX, u32::MAX));
}

#[test]
fn line_range_from_first_non_blank() {
    let c = chars_of("    $total = getTotal();  ");
    assert_eq!(span(find_line_range(&c, 0)), (0, 4, 26));
    let blank = chars_of("   ");
    assert_eq!(span(find_line_range(&blank, 0)), (0, 0, 3));
}

#[test]
fn classify_by_message_and_rule() {
    let m = chars_of("Whitespace found at end of line");
    let none = chars_of("");
    assert_eq!(classify(&m, &none), Scope::Line);
    let m = chars_of("A closing tag is not permitted");
    assert_eq!(classify(&m, &none), Scope::Tag);
    let r = chars_of("PSR12.Files.OpenTag.NotAlone");
    let m = chars_of("Something");
    assert_eq!(classify(&m, &r), Scope::Tag);
    let r = chars_of("Generic.Files.LineLength.TooLong");
    assert_eq!(classify(&m, &r), Scope::Line);
    let r = chars_of("Squiz.Strings.DoubleQuoteUsage");
    assert_eq!(classify(&m, &r), Scope::Token);
}

#[test]
fn classify_line_beats_tag() {
    let m = chars_of("Line exceeds 120 characters near ?>");
    assert_eq!(classify(&m, &chars_of("")), Scope::Line);
}

#[test]
fn reconstruct_without_text_is_one_column() {
    let r = reconstruct_range(None, 4, 7, Scope::Token);
    assert_eq!(span(r), (4, 7, 8));
    let r = reconstruct_range(None, 4, u32::MAX, Scope::Line);
    assert_eq!(span(r), (4, u32::MAX, u32::MAX));
}

#[test]
fn trailing_whitespace_scenario_covers_the_line() {
    // A whole-line issue spans from the first non-blank character to the
    // end of the line, wherever the tool points.
    let c = chars_of("    $total = getTotal();  ");
    let r = reconstruct_range(Some(&c), 0, 26, Scope::Line);
    assert_eq!(span(r), (0, 4, 26));
}

#[test]
fn token_range_unicode_word() {
    let c = chars_of("  $naïve_ß = 1;");
    assert_eq!(span(find_token_range(&c, 0, 2)), (0, 2, 10));
    assert_eq!(span(find_token_range(&c, 0, 6)), (0, 2, 10));
}

#[test]
fn token_range_tab_is_whitespace() {
    let c = chars_of("a\t\t b");
    assert_eq!(span(find_token_range(&c, 0, 1)), (0, 1, 4));
}
