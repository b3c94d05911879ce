use vstd::prelude::*;

use crate::json::{parse_json, Json};
use crate::json;
use crate::ranges::{classify, reconstruct_range, Range};
use crate::ranges;
use crate::text::{chars_eq, chars_of, is_blank, nth_line};
use crate::text;

verus! {

/// Severity of a diagnostic.
#[derive(Debug, Clone, Copy, PartialEq, Eq, Structural)]
pub enum Severity {
    Error,
    Warning,
    Information,
}

pub open spec fn severity_code(s: Severity) -> u8 {
    match s {
        Severity::Error => 1,
        Severity::Warning => 2,
        Severity::Information => 3,
    }
}

impl Severity {
    /// The protocol's number for this severity.
    pub fn code(&self) -> (r: u8)
        ensures
            r == severity_code(*self),
    {
        match self {
            Severity::Error => 1,
            Severity::Warning => 2,
            Severity::Information => 3,
        }
    }
}

/// One message of the tool's report, with its one-based line and column.
pub struct RawMessage {
    pub line: u32,
    pub column: u32,
    pub message: String,
    /// The category label: `ERROR`, `WARNING` or another.
    pub kind: String,
    /// The identifier of the sniff; empty when the report gives none.
    pub rule: String,
    pub fixable: bool,
    /// The numeric severity of the report, when it is an integer.
    pub severity: Option<u64>,
}

pub struct RawMessageView {
    pub line: u32,
    pub column: u32,
    pub message: Seq<char>,
    pub kind: Seq<char>,
    pub rule: Seq<char>,
    pub fixable: bool,
    pub severity: Option<u64>,
}

impl View for RawMessage {
    type V = RawMessageView;

    open spec fn view(&self) -> RawMessageView {
        RawMessageView {
            line: self.line,
            column: self.column,
            message: self.message@,
            kind: self.kind@,
            rule: self.rule@,
            fixable: self.fixable,
            severity: self.severity,
        }
    }
}

/// A diagnostic ready for the editor, with a zero-based range.
pub struct Diagnostic {
    pub range: Range,
    pub severity: Severity,
    /// The sniff identifier, absent when empty.
    pub code: Option<String>,
    /// Label of the tool that reported it.
    pub source: String,
    pub message: String,
    /// Data kept for later use: whether the tool can fix the issue, the sniff
    /// identifier and the tool's numeric severity.
    pub fixable: bool,
    pub rule: String,
    pub raw_severity: Option<u64>,
}

pub struct DiagnosticView {
    pub range: Range,
    pub severity: Severity,
    pub code: Option<Seq<char>>,
    pub source: Seq<char>,
    pub message: Seq<char>,
    pub fixable: bool,
    pub rule: Seq<char>,
    pub raw_severity: Option<u64>,
}

impl View for Diagnostic {
    type V = DiagnosticView;

    open spec fn view(&self) -> DiagnosticView {
        DiagnosticView {
            range: self.range,
            severity: self.severity,
            code: match self.code {
                Some(c) => Some(c@),
                None => None,
            },
            source: self.source@,
            message: self.message@,
            fixable: self.fixable,
            rule: self.rule@,
            raw_severity: self.raw_severity,
        }
    }
}

/// A report number as a `u32`: zero when negative, `u32::MAX` when larger.
pub open spec fn clamp_u32(n: int) -> u32 {
    if n < 0 {
        0
    } else if n > u32::MAX {
        u32::MAX
    } else {
        n as u32
    }
}

/// The integer member `key` of `m`, if it is one.
pub open spec fn integer_member_of(m: Json, key: Seq<char>) -> Option<int> {
    match json::json_get(m, key) {
        Some(j) => json::integer_of(j),
        None => None,
    }
}

/// The message that a report entry describes; entries without an integer
/// line and column, a text message and type, and a source and fixability
/// member are left out. A line or column below zero counts as zero.
pub open spec fn message_of(m: Json) -> Option<RawMessageView> {
    let message = json::json_get(m, "message"@);
    let kind = json::json_get(m, "type"@);
    let source = json::json_get(m, "source"@);
    let fixable = json::json_get(m, "fixable"@);
    let line = integer_member_of(m, "line"@);
    let column = integer_member_of(m, "column"@);
    if (line is Some) && (column is Some) && (message matches Some(Json::Str(_))) && (kind matches Some(
        Json::Str(_),
    )) && (source is Some) && (fixable is Some) {
        Some(
            RawMessageView {
                line: clamp_u32(line->0),
                column: clamp_u32(column->0),
                message: message->0->Str_0@,
                kind: kind->0->Str_0@,
                rule: match source->0 {
                    Json::Str(s) => s@,
                    _ => Seq::empty(),
                },
                fixable: match fixable->0 {
                    Json::Bool(b) => b,
                    _ => false,
                },
                severity: match json::json_get(m, "severity"@) {
                    Some(Json::Number(Some(n), _)) => Some(n),
                    _ => None,
                },
            },
        )
    } else {
        None
    }
}

/// The messages of the entries `ms`, in order.
pub open spec fn messages_in(ms: Seq<Json>) -> Seq<RawMessageView>
    decreases ms.len(),
{
    if ms.len() == 0 {
        Seq::empty()
    } else {
        messages_in(ms.drop_last()) + match message_of(ms.last()) {
            Some(m) => seq![m],
            None => Seq::empty(),
        }
    }
}

/// The messages of one file of the report.
pub open spec fn file_messages(f: Json) -> Seq<RawMessageView> {
    match json::json_get(f, "messages"@) {
        Some(Json::Array(ms)) => messages_in(ms@),
        _ => Seq::empty(),
    }
}

/// The messages of the files `fs`, file after file.
pub open spec fn files_messages(fs: Seq<(String, Json)>) -> Seq<RawMessageView>
    decreases fs.len(),
{
    if fs.len() == 0 {
        Seq::empty()
    } else {
        files_messages(fs.drop_last()) + file_messages(fs.last().1)
    }
}

/// The messages of a report: those of each member of its `files` object.
pub open spec fn report_messages(root: Json) -> Seq<RawMessageView> {
    match json::json_get(root, "files"@) {
        Some(Json::Object(fs)) => files_messages(fs@),
        _ => Seq::empty(),
    }
}

fn integer_member(m: &Json, key: &str) -> (r: Option<u32>)
    ensures
        r == (match integer_member_of(*m, key@) {
            Some(n) => Some(clamp_u32(n)),
            None => None,
        }),
{
    match m.get(key) {
        Some(Json::Number(Some(n), _)) => Some(to_u32(*n)),
        Some(Json::Number(None, Some(n))) => {
            if *n < 0 {
                Some(0)
            } else {
                Some(to_u32(*n as u64))
            }
        },
        _ => None,
    }
}

fn severity_member(m: &Json) -> (r: Option<u64>)
    ensures
        r == (match json::json_get(*m, "severity"@) {
            Some(Json::Number(Some(n), _)) => Some(n),
            _ => None,
        }),
{
    match m.get("severity") {
        Some(Json::Number(Some(n), _)) => Some(*n),
        _ => None,
    }
}

fn text_member(m: &Json, key: &str) -> (r: Option<String>)
    ensures
        match json::json_get(*m, key@) {
            Some(Json::Str(s)) => r matches Some(t) && t@ == s@,
            _ => r is None,
        },
{
    match m.get(key) {
        Some(Json::Str(s)) => Some(s.clone()),
        _ => None,
    }
}

fn to_u32(n: u64) -> (r: u32)
    ensures
        r == clamp_u32(n as int),
{
    if n > 0xFFFF_FFFF {
        0xFFFF_FFFF
    } else {
        n as u32
    }
}

/// The message that the report entry `m` describes, if it is complete.
pub fn message_from_json(m: &Json) -> (r: Option<RawMessage>)
    ensures
        match r {
            Some(x) => message_of(*m) == Some(x@),
            None => message_of(*m) is None,
        },
{
    let line = match integer_member(m, "line") {
        Some(n) => n,
        None => return None,
    };
    let column = match integer_member(m, "column") {
        Some(n) => n,
        None => return None,
    };
    let message = match text_member(m, "message") {
        Some(s) => s,
        None => return None,
    };
    let kind = match text_member(m, "type") {
        Some(s) => s,
        None => return None,
    };
    let rule = match m.get("source") {
        Some(Json::Str(s)) => s.clone(),
        Some(_) => String::new(),
        None => return None,
    };
    let fixable = match m.get("fixable") {
        Some(Json::Bool(b)) => *b,
        Some(_) => false,
        None => return None,
    };
    let severity = severity_member(m);
    Some(
        RawMessage {
            line,
            column,
            message,
            kind,
            rule,
            fixable,
            severity,
        },
    )
}

/// The messages of a parsed report, file after file, in order.
pub fn messages_from_report(root: &Json) -> (r: Vec<RawMessage>)
    ensures
        r@.map_values(|x: RawMessage| x@) == report_messages(*root),
{
    let mut out: Vec<RawMessage> = Vec::new();
    let files = match root.get("files") {
        Some(Json::Object(fs)) => fs,
        _ => {
            assert(out@.map_values(|x: RawMessage| x@) =~= Seq::empty());
            return out;
        },
    };
    let nf = files.len();
    let mut i: usize = 0;
    proof {
        assert(files@.subrange(0, 0) =~= Seq::<(String, Json)>::empty());
        assert(out@.map_values(|x: RawMessage| x@) =~= Seq::empty());
    }
    while i < nf
        invariant
            i <= nf,
            nf == files@.len(),
            json::json_get(*root, "files"@) == Some(Json::Object(*files)),
            out@.map_values(|x: RawMessage| x@) == files_messages(files@.subrange(0, i as int)),
        decreases nf - i,
    {
        let ghost done = out@.map_values(|x: RawMessage| x@);
        proof {
            assert(files@.subrange(0, i + 1).drop_last() =~= files@.subrange(0, i as int));
        }
        let file = &files[i].1;
        match file.get("messages") {
            Some(Json::Array(ms)) => {
                let nm = ms.len();
                let mut j: usize = 0;
                proof {
                    assert(ms@.subrange(0, 0) =~= Seq::<Json>::empty());
                    assert(done + messages_in(ms@.subrange(0, 0)) =~= done);
                }
                while j < nm
                    invariant
                        j <= nm,
                        nm == ms@.len(),
                        out@.map_values(|x: RawMessage| x@) == done + messages_in(
                            ms@.subrange(0, j as int),
                        ),
                    decreases nm - j,
                {
                    proof {
                        assert(ms@.subrange(0, j + 1).drop_last() =~= ms@.subrange(0, j as int));
                    }
                    let ghost before = out@.map_values(|x: RawMessage| x@);
                    match message_from_json(&ms[j]) {
                        Some(x) => {
                            let ghost xv = x@;
                            proof {
                                assert(ms@.subrange(0, j + 1).last() == ms@[j as int]);
                                assert(messages_in(ms@.subrange(0, j + 1)) == messages_in(
                                    ms@.subrange(0, j as int),
                                ) + seq![xv]);
                            }
                            out.push(x);
                            assert(out@.map_values(|x: RawMessage| x@) =~= before.push(xv));
                            assert(out@.map_values(|x: RawMessage| x@) =~= done + messages_in(
                                ms@.subrange(0, j + 1),
                            ));
                        },
                        None => {
                            assert(before =~= done + messages_in(ms@.subrange(0, j + 1)));
                        },
                    }
                    j += 1;
                }
                proof {
                    assert(ms@.subrange(0, nm as int) =~= ms@);
                }
            },
            _ => {
                assert(done =~= done + file_messages(files@[i as int].1));
            },
        }
        i += 1;
    }
    proof {
        assert(files@.subrange(0, nf as int) =~= files@);
    }
    out
}

/// Severity for a category label: `ERROR`, `WARNING`, and informational for
/// any other.
pub open spec fn severity_of(kind: Seq<char>) -> Severity {
    if kind == "ERROR"@ {
        Severity::Error
    } else if kind == "WARNING"@ {
        Severity::Warning
    } else {
        Severity::Information
    }
}

/// A one-based report number as zero-based, zero staying zero.
pub open spec fn zero_based(n: u32) -> u32 {
    if n > 0 {
        (n - 1) as u32
    } else {
        0
    }
}

/// Text of line `line` of the document `text`, if both exist.
pub open spec fn line_text(text: Option<Seq<char>>, line: u32) -> Option<Seq<char>> {
    match text {
        Some(t) => text::line_at(t, line as int),
        None => None,
    }
}

/// The diagnostic for message `m` on the document `text`.
pub open spec fn diagnostic_of(m: RawMessageView, text: Option<Seq<char>>) -> DiagnosticView {
    let line = zero_based(m.line);
    let column = zero_based(m.column);
    DiagnosticView {
        range: ranges::range_for(
            line_text(text, line),
            line,
            column,
            ranges::scope_of(m.message, m.rule),
        ),
        severity: severity_of(m.kind),
        code: if m.rule.len() > 0 {
            Some(m.rule)
        } else {
            None
        },
        source: "phpcs"@,
        message: m.message,
        fixable: m.fixable,
        rule: m.rule,
        raw_severity: m.severity,
    }
}

pub open spec fn opt_view(text: Option<&Vec<char>>) -> Option<Seq<char>> {
    match text {
        Some(t) => Some(t@),
        None => None,
    }
}

/// Turns a message of the report into a diagnostic, its range rebuilt from
/// the line of the document `text` that it points at.
pub fn convert_message_to_diagnostic(m: &RawMessage, text: Option<&Vec<char>>) -> (r: Diagnostic)
    ensures
        r@ == diagnostic_of(m@, opt_view(text)),
{
    let line = if m.line > 0 { m.line - 1 } else { 0 };
    let column = if m.column > 0 { m.column - 1 } else { 0 };
    let message = chars_of(m.message.as_str());
    let rule = chars_of(m.rule.as_str());
    let scope = classify(&message, &rule);
    let line_chars = match text {
        Some(t) => nth_line(t, line as usize),
        None => None,
    };
    let range = match &line_chars {
        Some(c) => reconstruct_range(Some(c), line, column, scope),
        None => reconstruct_range(None, line, column, scope),
    };
    let kind = chars_of(m.kind.as_str());
    let severity = if chars_eq(&kind, &chars_of("ERROR")) {
        Severity::Error
    } else if chars_eq(&kind, &chars_of("WARNING")) {
        Severity::Warning
    } else {
        Severity::Information
    };
    let code = if rule.len() > 0 {
        Some(m.rule.clone())
    } else {
        None
    };
    Diagnostic {
        range,
        severity,
        code,
        source: String::from_str("phpcs"),
        message: m.message.clone(),
        fixable: m.fixable,
        rule: m.rule.clone(),
        raw_severity: m.severity,
    }
}

/// The diagnostics of a parsed report on the document `text`.
pub open spec fn report_diagnostics(root: Json, text: Option<Seq<char>>) -> Seq<DiagnosticView> {
    report_messages(root).map_values(|m: RawMessageView| diagnostic_of(m, text))
}

/// The diagnostics of a parsed report on the document `text`, in the order
/// of the report.
pub fn parse_report(root: &Json, text: Option<&Vec<char>>) -> (r: Vec<Diagnostic>)
    ensures
        r@.map_values(|d: Diagnostic| d@) == report_diagnostics(*root, opt_view(text)),
{
    let messages = messages_from_report(root);
    let ghost ms = report_messages(*root);
    let mut out: Vec<Diagnostic> = Vec::new();
    let mut i: usize = 0;
    while i < messages.len()
        invariant
            i <= messages@.len(),
            messages@.map_values(|x: RawMessage| x@) == ms,
            ms == report_messages(*root),
            out@.map_values(|d: Diagnostic| d@) == ms.subrange(0, i as int).map_values(
                |m: RawMessageView| diagnostic_of(m, opt_view(text)),
            ),
        decreases messages@.len() - i,
    {
        let d = convert_message_to_diagnostic(&messages[i], text);
        let ghost before = out@.map_values(|d: Diagnostic| d@);
        let ghost dv = d@;
        out.push(d);
        proof {
            assert(messages@.map_values(|x: RawMessage| x@)[i as int] == messages@[i as int]@);
            assert(dv == diagnostic_of(ms[i as int], opt_view(text)));
            assert(out@.map_values(|d: Diagnostic| d@) =~= before.push(dv));
            assert(out@.map_values(|d: Diagnostic| d@) =~= ms.subrange(0, i + 1).map_values(
                |m: RawMessageView| diagnostic_of(m, opt_view(text)),
            ));
        }
        i += 1;
    }
    proof {
        assert(ms.subrange(0, i as int) =~= ms);
    }
    out
}

/// The diagnostics of the tool's output `out` on the document `text`: none
/// for blank output or output that is not JSON.
pub open spec fn output_diagnostics(out: Seq<char>, text: Option<Seq<char>>) -> Seq<DiagnosticView> {
    if text::blank(out) {
        Seq::empty()
    } else {
        match json::parsed_json(out) {
            Some(root) => report_diagnostics(root, text),
            None => Seq::empty(),
        }
    }
}

/// Diagnostics from the tool's JSON report `output` on the document `text`.
/// Output that is blank or not JSON gives none.
pub fn parse_phpcs_output(output: &str, text: Option<&Vec<char>>) -> (r: Vec<Diagnostic>)
    ensures
        r@.map_values(|d: Diagnostic| d@) == output_diagnostics(output@, opt_view(text)),
{
    let chars = chars_of(output);
    if is_blank(&chars) {
        let out: Vec<Diagnostic> = Vec::new();
        assert(out@.map_values(|d: Diagnostic| d@) =~= Seq::empty());
        return out;
    }
    match parse_json(output) {
        Some(root) => parse_report(&root, text),
        None => {
            let out: Vec<Diagnostic> = Vec::new();
            assert(out@.map_values(|d: Diagnostic| d@) =~= Seq::empty());
            out
        },
    }
}

} // verus!
