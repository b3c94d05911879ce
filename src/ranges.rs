use vstd::prelude::*;

use crate::text;
use crate::text::{chars_of, contains_chars, is_alphanumeric, is_whitespace};

verus! {

/// A zero-based line and character offset in a document.
#[derive(Debug, Clone, Copy, PartialEq, Eq, Structural)]
pub struct Position {
    pub line: u32,
    pub character: u32,
}

/// A span of a document, from `start` up to `end` exclusive.
#[derive(Debug, Clone, Copy, PartialEq, Eq, Structural)]
pub struct Range {
    pub start: Position,
    pub end: Position,
}

/// The range on `line` from column `start` to column `end`.
pub open spec fn span_on(line: u32, start: int, end: int) -> Range {
    Range {
        start: Position { line, character: start as u32 },
        end: Position { line, character: end as u32 },
    }
}

/// Sets of characters that a token range grows over.
#[derive(Debug, Clone, Copy, PartialEq, Eq, Structural)]
pub enum CharClass {
    /// Letters, digits, `_` and the variable sigil `$`.
    Word,
    /// Letters, digits and `_`: a word continues to the right with these.
    WordTail,
    /// White space.
    Space,
    /// Characters of comparison, arithmetic and bitwise operators.
    Operator,
}

pub open spec fn is_operator_char(c: char) -> bool {
    c == '=' || c == '!' || c == '<' || c == '>' || c == '+' || c == '-' || c == '*' || c == '/'
        || c == '%' || c == '&' || c == '|' || c == '^' || c == '~'
}

pub open spec fn in_class(k: CharClass, c: char) -> bool {
    match k {
        CharClass::Word => text::alphanumeric(c) || c == '_' || c == '$',
        CharClass::WordTail => text::alphanumeric(c) || c == '_',
        CharClass::Space => text::unicode_whitespace(c),
        CharClass::Operator => is_operator_char(c),
    }
}

fn is_operator(c: char) -> (r: bool)
    ensures
        r == is_operator_char(c),
{
    c == '=' || c == '!' || c == '<' || c == '>' || c == '+' || c == '-' || c == '*' || c == '/'
        || c == '%' || c == '&' || c == '|' || c == '^' || c == '~'
}

fn class_holds(k: CharClass, c: char) -> (r: bool)
    ensures
        r == in_class(k, c),
{
    match k {
        CharClass::Word => is_alphanumeric(c) || c == '_' || c == '$',
        CharClass::WordTail => is_alphanumeric(c) || c == '_',
        CharClass::Space => is_whitespace(c),
        CharClass::Operator => is_operator(c),
    }
}

/// The first index at or after `i` whose character is not in class `k`.
pub open spec fn extend_right(c: Seq<char>, i: int, k: CharClass) -> int
    decreases c.len() - i,
{
    if 0 <= i < c.len() && in_class(k, c[i]) {
        extend_right(c, i + 1, k)
    } else {
        i
    }
}

/// The least index `j <= i` such that all characters from `j` up to `i` are
/// in class `k`.
pub open spec fn extend_left(c: Seq<char>, i: int, k: CharClass) -> int
    decreases i,
{
    if 0 < i <= c.len() && in_class(k, c[i - 1]) {
        extend_left(c, i - 1, k)
    } else {
        i
    }
}

fn grow_right(c: &Vec<char>, i: usize, k: CharClass) -> (r: usize)
    requires
        i <= c@.len(),
    ensures
        r == extend_right(c@, i as int, k),
        i <= r <= c@.len(),
{
    let mut j = i;
    while j < c.len() && class_holds(k, c[j])
        invariant
            i <= j <= c@.len(),
            extend_right(c@, j as int, k) == extend_right(c@, i as int, k),
        decreases c@.len() - j,
    {
        j += 1;
    }
    j
}

fn grow_left(c: &Vec<char>, i: usize, k: CharClass) -> (r: usize)
    requires
        i <= c@.len(),
    ensures
        r == extend_left(c@, i as int, k),
        r <= i,
{
    let mut j = i;
    while j > 0 && class_holds(k, c[j - 1])
        invariant
            j <= i <= c@.len(),
            extend_left(c@, j as int, k) == extend_left(c@, i as int, k),
        decreases j,
    {
        j -= 1;
    }
    j
}

/// Columns covered by the token at `col`: a word grows left over word
/// characters and the sigil and, past its first column, right over word
/// characters; white space
/// grows right, an operator grows both ways, and any other character stands
/// alone. A column at or past the end gives the one column before it.
pub open spec fn token_span(c: Seq<char>, col: int) -> (int, int) {
    if col >= c.len() {
        (if col > 0 { col - 1 } else { 0 }, col)
    } else {
        let ch = c[col];
        let s = if in_class(CharClass::Word, ch) {
            extend_left(c, col, CharClass::Word)
        } else if !in_class(CharClass::Space, ch) && is_operator_char(ch) {
            extend_left(c, col, CharClass::Operator)
        } else {
            col
        };
        let e = if in_class(CharClass::Word, ch) {
            extend_right(c, col + 1, CharClass::WordTail)
        } else if in_class(CharClass::Space, ch) {
            extend_right(c, col, CharClass::Space)
        } else if is_operator_char(ch) {
            extend_right(c, col, CharClass::Operator)
        } else {
            col + 1
        };
        if s == e {
            (s, col + 1)
        } else {
            (s, e)
        }
    }
}

/// Range of the token at `column` of the line `chars`.
pub fn find_token_range(chars: &Vec<char>, line: u32, column: u32) -> (r: Range)
    requires
        chars@.len() <= u32::MAX,
    ensures
        r == span_on(line, token_span(chars@, column as int).0, token_span(chars@, column as int).1),
{
    let col = column as usize;
    let len = chars.len();
    if col >= len {
        let start = if column > 0 { column - 1 } else { 0 };
        return Range {
            start: Position { line, character: start },
            end: Position { line, character: column },
        };
    }
    let ch = chars[col];
    let mut start = col;
    let mut end = col;
    if class_holds(CharClass::Word, ch) {
        start = grow_left(chars, col, CharClass::Word);
        end = grow_right(chars, col + 1, CharClass::WordTail);
    } else if class_holds(CharClass::Space, ch) {
        end = grow_right(chars, col, CharClass::Space);
    } else if is_operator(ch) {
        end = grow_right(chars, col, CharClass::Operator);
        start = grow_left(chars, col, CharClass::Operator);
    } else {
        end = col + 1;
    }
    if start == end {
        end = col + 1;
    }
    Range {
        start: Position { line, character: start as u32 },
        end: Position { line, character: end as u32 },
    }
}

/// Columns from the first character that is not white space to the end of
/// the line; from column zero when the line is all white space.
pub open spec fn line_span(c: Seq<char>) -> (int, int) {
    let f = extend_right(c, 0, CharClass::Space);
    (if f == c.len() { 0 } else { f }, c.len() as int)
}

/// Range of a whole-line issue on the line `chars`.
pub fn find_line_range(chars: &Vec<char>, line: u32) -> (r: Range)
    requires
        chars@.len() <= u32::MAX,
    ensures
        r == span_on(line, line_span(chars@).0, line_span(chars@).1),
{
    let len = chars.len();
    let first = grow_right(chars, 0, CharClass::Space);
    let start = if first == len { 0 } else { first };
    Range {
        start: Position { line, character: start as u32 },
        end: Position { line, character: len as u32 },
    }
}

/// Length of a tag marker. Markers are numbered in the order they are
/// looked for: the long opening tag `<?php` first, then the closing tag
/// `?>`, then the short opening tag `<?`.
pub open spec fn tag_len(k: int) -> int {
    if k == 0 {
        5
    } else {
        2
    }
}

pub open spec fn long_open_at(c: Seq<char>, p: int) -> bool {
    0 <= p && p + 5 <= c.len() && c[p] == '<' && c[p + 1] == '?' && c[p + 2] == 'p' && c[p + 3]
        == 'h' && c[p + 4] == 'p'
}

/// A tag marker numbered `k` starts at index `p` of `c`; a short opening
/// tag that begins a long one does not count.
pub open spec fn tag_at(c: Seq<char>, k: int, p: int) -> bool {
    if k == 0 {
        long_open_at(c, p)
    } else if k == 1 {
        0 <= p && p + 2 <= c.len() && c[p] == '?' && c[p + 1] == '>'
    } else if k == 2 {
        0 <= p && p + 2 <= c.len() && c[p] == '<' && c[p + 1] == '?' && !long_open_at(c, p)
    } else {
        false
    }
}

/// Distance of a marker from a column: zero inside the marker, else the
/// distance to its first column.
pub open spec fn tag_distance(col: int, k: int, p: int) -> int {
    if p <= col <= p + tag_len(k) {
        0
    } else if col < p {
        p - col
    } else {
        col - p
    }
}

/// The search meets marker `(ka, pa)` before marker `(kb, pb)`: marker by
/// marker, each from left to right.
pub open spec fn found_before(ka: int, pa: int, kb: int, pb: int) -> bool {
    ka < kb || (ka == kb && pa < pb)
}

/// `(k, p)` is the marker nearest to `col`, the first found among equals.
pub open spec fn closest_tag(c: Seq<char>, col: int, k: int, p: int) -> bool {
    &&& tag_at(c, k, p)
    &&& forall|kb: int, pb: int|
        #[trigger] tag_at(c, kb, pb) ==> tag_distance(col, kb, pb) >= tag_distance(col, k, p) && (
        found_before(kb, pb, k, p) ==> tag_distance(col, kb, pb) > tag_distance(col, k, p))
}

/// At most one marker is the closest.
pub proof fn lemma_closest_tag_unique(c: Seq<char>, col: int, ka: int, pa: int, kb: int, pb: int)
    requires
        closest_tag(c, col, ka, pa),
        closest_tag(c, col, kb, pb),
    ensures
        ka == kb && pa == pb,
{
    assert(tag_at(c, ka, pa) && tag_at(c, kb, pb));
}

fn tag_at_exec(c: &Vec<char>, k: usize, p: usize) -> (r: bool)
    requires
        k < 3,
        p < c@.len(),
        c@.len() <= u32::MAX,
    ensures
        r == tag_at(c@, k as int, p as int),
{
    let len = c.len();
    let long = len - p >= 5 && c[p] == '<' && c[p + 1] == '?' && c[p + 2] == 'p' && c[p + 3] == 'h'
        && c[p + 4] == 'p';
    if k == 0 {
        long
    } else if k == 1 {
        len - p >= 2 && c[p] == '?' && c[p + 1] == '>'
    } else {
        len - p >= 2 && c[p] == '<' && c[p + 1] == '?' && !long
    }
}

fn distance_exec(col: usize, k: usize, p: usize) -> (r: usize)
    requires
        k < 3,
        col <= u32::MAX,
        p <= u32::MAX,
    ensures
        r == tag_distance(col as int, k as int, p as int),
{
    let l: usize = if k == 0 { 5 } else { 2 };
    if p <= col && col - p <= l {
        0
    } else if col < p {
        p - col
    } else {
        col - p
    }
}

/// The tag marker nearest to `col` as (number, start), if the line holds one.
pub fn closest_tag_exec(c: &Vec<char>, col: usize) -> (r: Option<(usize, usize)>)
    requires
        c@.len() <= u32::MAX,
        col <= u32::MAX,
    ensures
        match r {
            Some((k, p)) => closest_tag(c@, col as int, k as int, p as int),
            None => forall|k: int, p: int| !tag_at(c@, k, p),
        },
{
    let len = c.len();
    let mut best: Option<(usize, usize)> = None;
    let mut best_d: usize = 0;
    let mut k: usize = 0;
    while k < 3
        invariant
            k <= 3,
            len == c@.len(),
            len <= u32::MAX,
            col <= u32::MAX,
            match best {
                Some((bk, bp)) => {
                    &&& tag_at(c@, bk as int, bp as int)
                    &&& best_d == tag_distance(col as int, bk as int, bp as int)
                    &&& found_before(bk as int, bp as int, k as int, 0)
                    &&& forall|kb: int, pb: int|
                        #[trigger] tag_at(c@, kb, pb) && found_before(kb, pb, k as int, 0) ==> (
                        tag_distance(col as int, kb, pb) >= best_d && (found_before(
                            kb,
                            pb,
                            bk as int,
                            bp as int,
                        ) ==> tag_distance(col as int, kb, pb) > best_d))
                },
                None => forall|kb: int, pb: int|
                    #[trigger] tag_at(c@, kb, pb) ==> !found_before(kb, pb, k as int, 0),
            },
        decreases 3 - k,
    {
        let mut p: usize = 0;
        while p < len
            invariant
                k < 3,
                p <= len,
                len == c@.len(),
                len <= u32::MAX,
                col <= u32::MAX,
                match best {
                    Some((bk, bp)) => {
                        &&& tag_at(c@, bk as int, bp as int)
                        &&& best_d == tag_distance(col as int, bk as int, bp as int)
                        &&& found_before(bk as int, bp as int, k as int, p as int)
                        &&& forall|kb: int, pb: int|
                            #[trigger] tag_at(c@, kb, pb) && found_before(
                                kb,
                                pb,
                                k as int,
                                p as int,
                            ) ==> (tag_distance(col as int, kb, pb) >= best_d && (found_before(
                                kb,
                                pb,
                                bk as int,
                                bp as int,
                            ) ==> tag_distance(col as int, kb, pb) > best_d))
                    },
                    None => forall|kb: int, pb: int|
                        #[trigger] tag_at(c@, kb, pb) ==> !found_before(kb, pb, k as int, p as int),
                },
            decreases len - p,
        {
            if tag_at_exec(c, k, p) {
                let d = distance_exec(col, k, p);
                let replace = match best {
                    Some(_) => d < best_d,
                    None => true,
                };
                if replace {
                    best = Some((k, p));
                    best_d = d;
                }
            }
            p += 1;
        }
        proof {
            assert forall|kb: int, pb: int|
                #[trigger] tag_at(c@, kb, pb) && found_before(kb, pb, k + 1, 0) implies found_before(
                kb,
                pb,
                k as int,
                len as int,
            ) by {}
        }
        k += 1;
    }
    best
}

/// Columns of the tag marker nearest to `col`, or two columns from `col`
/// (kept within `u32`) when the line holds none.
pub open spec fn tag_span(c: Seq<char>, col: int) -> (int, int) {
    if exists|k: int, p: int| closest_tag(c, col, k, p) {
        let (k, p) = choose|k: int, p: int| closest_tag(c, col, k, p);
        (p, p + tag_len(k))
    } else {
        (col, if col + 2 > u32::MAX { u32::MAX as int } else { col + 2 })
    }
}

/// Range of the tag marker nearest to `column` on the line `chars`, or two
/// columns from `column` when the line holds none.
pub fn find_tag_range(chars: &Vec<char>, line: u32, column: u32) -> (r: Range)
    requires
        chars@.len() <= u32::MAX,
    ensures
        r == span_on(line, tag_span(chars@, column as int).0, tag_span(chars@, column as int).1),
{
    match closest_tag_exec(chars, column as usize) {
        Some((k, p)) => {
            let l: usize = if k == 0 { 5 } else { 2 };
            proof {
                let (kb, pb) = choose|kb: int, pb: int| closest_tag(chars@, column as int, kb, pb);
                lemma_closest_tag_unique(chars@, column as int, k as int, p as int, kb, pb);
            }
            Range {
                start: Position { line, character: p as u32 },
                end: Position { line, character: (p + l) as u32 },
            }
        },
        None => {
            assert(!exists|k: int, p: int| closest_tag(chars@, column as int, k, p));
            Range {
                start: Position { line, character: column },
                end: Position { line, character: column.saturating_add(2) },
            }
        },
    }
}

/// How much of a line a diagnostic covers.
#[derive(Debug, Clone, Copy, PartialEq, Eq, Structural)]
pub enum Scope {
    /// The whole line, from its first non-blank character.
    Line,
    /// The nearest PHP open or close tag.
    Tag,
    /// The token at the reported column.
    Token,
}

/// The part of a tool message that a pattern is looked for in.
#[derive(Debug, Clone, Copy, PartialEq, Eq, Structural)]
pub enum Field {
    /// The human-readable message text.
    Message,
    /// The identifier of the sniff that reported it.
    Rule,
}

/// An entry of the classification table: messages whose `field` contains
/// `needle` get scope `scope`.
pub struct Pattern {
    pub field: Field,
    pub needle: &'static str,
    pub scope: Scope,
}

/// The classification table.
pub open spec fn pattern_table() -> Seq<(Field, Seq<char>, Scope)> {
    seq![
        (Field::Message, "Line exceeds"@, Scope::Line),
        (Field::Message, "line is too long"@, Scope::Line),
        (Field::Message, "Whitespace found at end of line"@, Scope::Line),
        (Field::Message, "Line indented incorrectly"@, Scope::Line),
        (Field::Message, "separated by a single blank line"@, Scope::Line),
        (Field::Message, "blocks must be separated"@, Scope::Line),
        (Field::Rule, "Generic.Files.LineLength"@, Scope::Line),
        (Field::Rule, "Generic.WhiteSpace.DisallowTabIndent"@, Scope::Line),
        (Field::Rule, "Squiz.WhiteSpace.SuperfluousWhitespace"@, Scope::Line),
        (Field::Rule, "PSR12.Files.FileHeader.SpacingAfterBlock"@, Scope::Line),
        (Field::Message, "closing tag"@, Scope::Tag),
        (Field::Message, "Opening PHP tag"@, Scope::Tag),
        (Field::Message, "<?php"@, Scope::Tag),
        (Field::Message, "?>"@, Scope::Tag),
        (Field::Rule, "PSR2.Files.ClosingTag"@, Scope::Tag),
        (Field::Rule, "PSR12.Files.OpenTag"@, Scope::Tag),
    ]
}

pub open spec fn pattern_view(p: Pattern) -> (Field, Seq<char>, Scope) {
    (p.field, p.needle@, p.scope)
}

/// The classification table, in order.
pub fn patterns() -> (r: Vec<Pattern>)
    ensures
        r@.map_values(|p: Pattern| pattern_view(p)) == pattern_table(),
{
    let mut v: Vec<Pattern> = Vec::new();
    v.push(Pattern { field: Field::Message, needle: "Line exceeds", scope: Scope::Line });
    v.push(Pattern { field: Field::Message, needle: "line is too long", scope: Scope::Line });
    v.push(
        Pattern {
            field: Field::Message,
            needle: "Whitespace found at end of line",
            scope: Scope::Line,
        },
    );
    v.push(
        Pattern { field: Field::Message, needle: "Line indented incorrectly", scope: Scope::Line },
    );
    v.push(
        Pattern {
            field: Field::Message,
            needle: "separated by a single blank line",
            scope: Scope::Line,
        },
    );
    v.push(Pattern { field: Field::Message, needle: "blocks must be separated", scope: Scope::Line });
    v.push(Pattern { field: Field::Rule, needle: "Generic.Files.LineLength", scope: Scope::Line });
    v.push(
        Pattern {
            field: Field::Rule,
            needle: "Generic.WhiteSpace.DisallowTabIndent",
            scope: Scope::Line,
        },
    );
    v.push(
        Pattern {
            field: Field::Rule,
            needle: "Squiz.WhiteSpace.SuperfluousWhitespace",
            scope: Scope::Line,
        },
    );
    v.push(
        Pattern {
            field: Field::Rule,
            needle: "PSR12.Files.FileHeader.SpacingAfterBlock",
            scope: Scope::Line,
        },
    );
    v.push(Pattern { field: Field::Message, needle: "closing tag", scope: Scope::Tag });
    v.push(Pattern { field: Field::Message, needle: "Opening PHP tag", scope: Scope::Tag });
    v.push(Pattern { field: Field::Message, needle: "<?php", scope: Scope::Tag });
    v.push(Pattern { field: Field::Message, needle: "?>", scope: Scope::Tag });
    v.push(Pattern { field: Field::Rule, needle: "PSR2.Files.ClosingTag", scope: Scope::Tag });
    v.push(Pattern { field: Field::Rule, needle: "PSR12.Files.OpenTag", scope: Scope::Tag });
    assert(v@.map_values(|p: Pattern| pattern_view(p)) =~= pattern_table());
    v
}

pub open spec fn pattern_hits(msg: Seq<char>, rule: Seq<char>, p: (Field, Seq<char>, Scope)) -> bool {
    text::contains(
        match p.0 {
            Field::Message => msg,
            Field::Rule => rule,
        },
        p.1,
    )
}

/// Some pattern of scope `s` hits the message.
pub open spec fn scope_hit(msg: Seq<char>, rule: Seq<char>, s: Scope) -> bool {
    exists|i: int|
        0 <= i < pattern_table().len() && (#[trigger] pattern_table()[i]).2 == s && pattern_hits(
            msg,
            rule,
            pattern_table()[i],
        )
}

/// The scope of a message: whole-line patterns win over tag patterns, and a
/// message that no pattern hits concerns a token.
pub open spec fn scope_of(msg: Seq<char>, rule: Seq<char>) -> Scope {
    if scope_hit(msg, rule, Scope::Line) {
        Scope::Line
    } else if scope_hit(msg, rule, Scope::Tag) {
        Scope::Tag
    } else {
        Scope::Token
    }
}

/// The scope of a message with text `msg` from the sniff `rule`.
pub fn classify(msg: &Vec<char>, rule: &Vec<char>) -> (r: Scope)
    ensures
        r == scope_of(msg@, rule@),
{
    let table = patterns();
    let ghost t = pattern_table();
    let mut line_hit = false;
    let mut tag_hit = false;
    let mut i: usize = 0;
    while i < table.len()
        invariant
            i <= table@.len(),
            table@.map_values(|p: Pattern| pattern_view(p)) == t,
            t == pattern_table(),
            line_hit == exists|j: int|
                0 <= j < i && (#[trigger] t[j]).2 == Scope::Line && pattern_hits(msg@, rule@, t[j]),
            tag_hit == exists|j: int|
                0 <= j < i && (#[trigger] t[j]).2 == Scope::Tag && pattern_hits(msg@, rule@, t[j]),
        decreases table@.len() - i,
    {
        let p = &table[i];
        assert(pattern_view(*p) == t[i as int]);
        let needle = chars_of(p.needle);
        let hay = match p.field {
            Field::Message => msg,
            Field::Rule => rule,
        };
        let hit = contains_chars(hay, &needle);
        if hit && p.scope == Scope::Line {
            line_hit = true;
        }
        if hit && p.scope == Scope::Tag {
            tag_hit = true;
        }
        i += 1;
    }
    assert(table@.len() == t.len());
    if line_hit {
        Scope::Line
    } else if tag_hit {
        Scope::Tag
    } else {
        Scope::Token
    }
}

/// Range that a diagnostic of scope `scope`, reported at `line` and
/// `column`, covers on the line text `text`; without the text, or on a line
/// too long for `u32` columns, the one column at `column`.
pub open spec fn range_for(text: Option<Seq<char>>, line: u32, column: u32, scope: Scope) -> Range {
    match text {
        Some(c) => if c.len() <= u32::MAX {
            match scope {
                Scope::Line => span_on(line, line_span(c).0, line_span(c).1),
                Scope::Tag => span_on(line, tag_span(c, column as int).0, tag_span(c, column as int).1),
                Scope::Token => span_on(
                    line,
                    token_span(c, column as int).0,
                    token_span(c, column as int).1,
                ),
            }
        } else {
            point_range(line, column)
        },
        None => point_range(line, column),
    }
}

/// The one column at `column`, kept within `u32`.
pub open spec fn point_range(line: u32, column: u32) -> Range {
    span_on(line, column as int, if column == u32::MAX { column as int } else { column + 1 })
}

/// Range of a diagnostic of scope `scope` at `line` and `column`, given the
/// text of that line if there is one.
pub fn reconstruct_range(text: Option<&Vec<char>>, line: u32, column: u32, scope: Scope) -> (r: Range)
    ensures
        r == range_for(
            match text {
                Some(c) => Some(c@),
                None => None,
            },
            line,
            column,
            scope,
        ),
{
    match text {
        Some(c) => {
            if c.len() <= 0xFFFF_FFFF {
                match scope {
                    Scope::Line => find_line_range(c, line),
                    Scope::Tag => find_tag_range(c, line, column),
                    Scope::Token => find_token_range(c, line, column),
                }
            } else {
                Range {
                    start: Position { line, character: column },
                    end: Position { line, character: column.saturating_add(1) },
                }
            }
        },
        None => Range {
            start: Position { line, character: column },
            end: Position { line, character: column.saturating_add(1) },
        },
    }
}

} // verus!
