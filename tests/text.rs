use phpcs_lsp::text::{contains_chars, nth_line};

fn chars_of(s: &str) -> Vec<char> {
    s.chars().collect()
}

fn line(text: &str, n: usize) -> Option<String> {
    nth_line(&chars_of(text), n).map(|v| v.into_iter().collect())
}

#[test]
fn lines_split_at_newlines() {
    let t = "a\nbb\r\n\nccc";
    assert_eq!(line(t, 0).as_deref(), Some("a"));
    assert_eq!(line(t, 1).as_deref(), Some("bb"));
    assert_eq!(line(t, 2).as_deref(), Some(""));
    assert_eq!(line(t, 3).as_deref(), Some("ccc"));
    assert_eq!(line(t, 4), None);
    for (i, l) in t.lines().enumerate() {
        assert_eq!(line(t, i).as_deref(), Some(l));
    }
}

#[test]
fn no_line_after_final_newline() {
    assert_eq!(line("x\n", 0).as_deref(), Some("x"));
    assert_eq!(line("x\n", 1), None);
    assert_eq!(line("", 0), None);
}

#[test]
fn substring_search() {
    assert!(contains_chars(&chars_of("hello world"), &chars_of("o w")));
    assert!(!contains_chars(&chars_of("hello"), &chars_of("hello!")));
    assert!(contains_chars(&chars_of("abc"), &chars_of("")));
    assert!(!contains_chars(&chars_of("abc"), &chars_of("ac")));
}
