use phpcs_lsp::json::Json;
use phpcs_lsp::report::{
    convert_message_to_diagnostic, message_from_json, messages_from_report, parse_phpcs_output,
    parse_report, RawMessage, Severity,
};

fn chars_of(s: &str) -> Vec<char> {
    s.chars().collect()
}

fn obj(entries: Vec<(&str, Json)>) -> Json {
    Json::Object(entries.into_iter().map(|(k, v)| (k.to_string(), v)).collect())
}

fn s(x: &str) -> Json {
    Json::Str(x.to_string())
}

fn n(x: u64) -> Json {
    Json::Number(Some(x), i64::try_from(x).ok())
}

fn message(line: u64, column: u64, text: &str, kind: &str, source: &str) -> Json {
    obj(vec![
        ("line", n(line)),
        ("column", n(column)),
        ("message", s(text)),
        ("type", s(kind)),
        ("source", s(source)),
        ("fixable", Json::Bool(true)),
        ("severity", n(5)),
    ])
}

#[test]
fn report_with_one_warning() {
    let out = r#"{"files":{"a.php":{"messages":[{"line":3,"column":5,"message":"Variable not used","type":"WARNING","source":"Generic.Foo","fixable":false}]}}}"#;
    let doc = chars_of("<?php\n\n    $name = 1;\n");
    let d = parse_phpcs_output(out, Some(&doc));
    assert_eq!(d.len(), 1);
    assert_eq!(d[0].severity, Severity::Warning);
    assert_eq!(d[0].severity.code(), 2);
    assert_eq!(d[0].range.start.line, 2);
    assert_eq!(d[0].range.end.line, 2);
    assert_eq!(d[0].range.start.character, 4);
    assert_eq!(d[0].range.end.character, 9);
    assert_eq!(d[0].code.as_deref(), Some("Generic.Foo"));
    assert_eq!(d[0].source, "phpcs");
    assert_eq!(d[0].message, "Variable not used");
    assert!(!d[0].fixable);
    assert_eq!(d[0].raw_severity, None);
}

#[test]
fn blank_or_malformed_output_gives_nothing() {
    assert!(parse_phpcs_output("", None).is_empty());
    assert!(parse_phpcs_output("  \n\t", None).is_empty());
    assert!(parse_phpcs_output("{not json", None).is_empty());
    assert!(parse_phpcs_output("[1,2,3]", None).is_empty());
    assert!(parse_phpcs_output(r#"{"totals":{}}"#, None).is_empty());
}

#[test]
fn severities_from_labels() {
    let out = r#"{"files":{"a.php":{"messages":[
        {"line":1,"column":1,"message":"m","type":"ERROR","source":"","fixable":true,"severity":5},
        {"line":1,"column":1,"message":"m","type":"WARNING","source":"X","fixable":false},
        {"line":1,"column":1,"message":"m","type":"NOTICE","source":"X","fixable":false}]}}}"#;
    let d = parse_phpcs_output(out, None);
    assert_eq!(d.len(), 3);
    assert_eq!(d[0].severity, Severity::Error);
    assert_eq!(d[0].severity.code(), 1);
    assert_eq!(d[0].code, None);
    assert!(d[0].fixable);
    assert_eq!(d[0].raw_severity, Some(5));
    assert_eq!(d[1].severity, Severity::Warning);
    assert_eq!(d[2].severity, Severity::Information);
    assert_eq!(d[2].severity.code(), 3);
}

#[test]
fn incomplete_entries_are_skipped() {
    let out = r#"{"files":{"a.php":{"messages":[
        {"column":1,"message":"no line","type":"ERROR","source":"X","fixable":true},
        {"line":2,"column":1,"message":"no fixable","type":"ERROR","source":"X"},
        {"line":2.5,"column":1,"message":"float line","type":"ERROR","source":"X","fixable":true},
        {"line":4,"column":2,"message":"kept","type":"ERROR","source":7,"fixable":"yes"}]}}}"#;
    let d = parse_phpcs_output(out, None);
    assert_eq!(d.len(), 1);
    assert_eq!(d[0].message, "kept");
    assert_eq!(d[0].rule, "");
    assert_eq!(d[0].code, None);
    assert!(!d[0].fixable);
    assert_eq!((d[0].range.start.line, d[0].range.start.character, d[0].range.end.character), (3, 1, 2));
}

#[test]
fn zero_line_and_column_stay_zero() {
    let out = r#"{"files":{"a.php":{"messages":[{"line":0,"column":0,"message":"m","type":"ERROR","source":"X","fixable":true}]}}}"#;
    let doc = chars_of("abc");
    let d = parse_phpcs_output(out, Some(&doc));
    assert_eq!((d[0].range.start.line, d[0].range.start.character, d[0].range.end.character), (0, 0, 3));
}

#[test]
fn messages_of_all_files_in_order() {
    let root = obj(vec![(
        "files",
        obj(vec![
            ("a.php", obj(vec![("messages", Json::Array(vec![message(1, 1, "one", "ERROR", "A"), message(2, 1, "two", "ERROR", "B")]))])),
            ("b.php", obj(vec![("messages", Json::Null)])),
            ("c.php", obj(vec![("messages", Json::Array(vec![message(3, 1, "three", "WARNING", "C")]))])),
        ]),
    )]);
    let ms = messages_from_report(&root);
    let texts: Vec<&str> = ms.iter().map(|m| m.message.as_str()).collect();
    assert_eq!(texts, vec!["one", "two", "three"]);
    assert_eq!(ms[0].severity, Some(5));
    let ds = parse_report(&root, None);
    assert_eq!(ds.len(), 3);
    assert_eq!(ds[2].severity, Severity::Warning);
}

#[test]
fn message_from_entry() {
    let m = message_from_json(&message(7, 3, "x", "ERROR", "Rule.Id")).unwrap();
    assert_eq!((m.line, m.column), (7, 3));
    assert_eq!(m.rule, "Rule.Id");
    assert!(m.fixable);
    let big = obj(vec![
        ("line", n(u64::MAX)),
        ("column", n(1)),
        ("message", s("m")),
        ("type", s("ERROR")),
        ("source", s("X")),
        ("fixable", Json::Bool(false)),
    ]);
    assert_eq!(message_from_json(&big).unwrap().line, u32::MAX);
    assert!(message_from_json(&Json::Null).is_none());
}

#[test]
fn whole_line_diagnostic_range() {
    let m = RawMessage {
        line: 1,
        column: 27,
        message: "Whitespace found at end of line".to_string(),
        kind: "ERROR".to_string(),
        rule: "Squiz.WhiteSpace.SuperfluousWhitespace.EndLine".to_string(),
        fixable: true,
        severity: Some(5),
    };
    let doc = chars_of("    $total = getTotal();  \n");
    let d = convert_message_to_diagnostic(&m, Some(&doc));
    assert_eq!((d.range.start.character, d.range.end.character), (4, 26));
}

#[test]
fn closing_tag_diagnostic_range() {
    let m = RawMessage {
        line: 1,
        column: 15,
        message: "A closing tag is not permitted at the end of a PHP file".to_string(),
        kind: "ERROR".to_string(),
        rule: "PSR2.Files.ClosingTag.NotAllowed".to_string(),
        fixable: true,
        severity: Some(5),
    };
    let doc = chars_of("<?php echo $x; ?>");
    let d = convert_message_to_diagnostic(&m, Some(&doc));
    assert_eq!((d.range.start.line, d.range.start.character, d.range.end.character), (0, 15, 17));
}

#[test]
fn missing_line_falls_back_to_one_column() {
    let m = RawMessage {
        line: 9,
        column: 4,
        message: "m".to_string(),
        kind: "ERROR".to_string(),
        rule: "X".to_string(),
        fixable: false,
        severity: None,
    };
    let doc = chars_of("one line");
    let d = convert_message_to_diagnostic(&m, Some(&doc));
    assert_eq!((d.range.start.line, d.range.start.character, d.range.end.character), (8, 3, 4));
}

#[test]
fn crlf_document_lines() {
    let out = r#"{"files":{"a.php":{"messages":[{"line":2,"column":1,"message":"Line indented incorrectly","type":"ERROR","source":"Generic.WhiteSpace.ScopeIndent","fixable":true}]}}}"#;
    let doc = chars_of("<?php\r\n   foo();\r\n");
    let d = parse_phpcs_output(out, Some(&doc));
    assert_eq!((d[0].range.start.line, d[0].range.start.character, d[0].range.end.character), (1, 3, 9));
}

#[test]
fn negative_line_and_column_count_as_zero() {
    let out = r#"{"files":{"a.php":{"messages":[{"line":-3,"column":-1,"message":"m","type":"ERROR","source":"X","fixable":true}]}}}"#;
    let doc = chars_of("abc");
    let d = parse_phpcs_output(out, Some(&doc));
    assert_eq!(d.len(), 1);
    assert_eq!((d[0].range.start.line, d[0].range.start.character, d[0].range.end.character), (0, 0, 3));
    let m = message_from_json(&obj(vec![
        ("line", Json::Number(None, Some(-7))),
        ("column", n(2)),
        ("message", s("m")),
        ("type", s("ERROR")),
        ("source", s("X")),
        ("fixable", Json::Bool(false)),
    ]))
    .unwrap();
    assert_eq!((m.line, m.column), (0, 2));
}
