use crate::interpreter::lines_view;
use crate::text::chars_of;
use vstd::prelude::*;
use vstd::string::{StrSliceExecFns, StringExecFns};

verus! {

/// Whether `c` is white space.
pub open spec fn is_space(c: char) -> bool {
    c == ' ' || ('\t' <= c && c <= '\r') || c == '\u{85}' || c == '\u{a0}' || c == '\u{1680}' || (
    '\u{2000}' <= c && c <= '\u{200a}') || c == '\u{2028}' || c == '\u{2029}' || c == '\u{202f}'
        || c == '\u{205f}' || c == '\u{3000}'
}

/// The first position at or after `from` that holds a `;`, or the end.
pub open spec fn field_end(s: Seq<char>, from: int) -> int
    decreases s.len() - from,
{
    if 0 <= from < s.len() && s[from] != ';' {
        field_end(s, from + 1)
    } else {
        from
    }
}

/// The first position from `from` up to `to` that holds no white space.
pub open spec fn trim_start(s: Seq<char>, from: int, to: int) -> int
    decreases to - from,
{
    if 0 <= from < to <= s.len() && is_space(s[from]) {
        trim_start(s, from + 1, to)
    } else {
        from
    }
}

/// The position behind the last character between `from` and `to` that is no
/// white space.
pub open spec fn trim_end(s: Seq<char>, from: int, to: int) -> int
    decreases to - from,
{
    if 0 <= from < to <= s.len() && is_space(s[to - 1]) {
        trim_end(s, from, to - 1)
    } else {
        to
    }
}

/// `s[from..to]` without the white space at its ends.
pub open spec fn trimmed(s: Seq<char>, from: int, to: int) -> Seq<char> {
    let start = trim_start(s, from, to);
    s.subrange(start, trim_end(s, start, to))
}

/// Whether the description `s` has a `;` behind its name.
pub open spec fn has_fields(s: Seq<char>) -> bool {
    field_end(s, 0) < s.len()
}

/// The name in the description `s`: what stands before the first `;`.
pub open spec fn struct_name(s: Seq<char>) -> Seq<char> {
    trimmed(s, 0, field_end(s, 0))
}

/// The fields in the description `s`: what stands between the first `;` and
/// the next.
pub open spec fn struct_fields(s: Seq<char>) -> Seq<char> {
    trimmed(s, field_end(s, 0) + 1, field_end(s, field_end(s, 0) + 1))
}

/// The lines that open the generated file.
pub open spec fn head_lines(basename: Seq<char>) -> Seq<Seq<char>> {
    seq!["use crate::token::{Token, TokenLiteral};"@, "pub trait "@ + basename + " {"@, "}"@]
}

/// The lines for one description: a struct with the fields, and its
/// implementation of the trait.
pub open spec fn struct_lines(basename: Seq<char>, s: Seq<char>) -> Seq<Seq<char>> {
    seq![
        "pub struct "@ + struct_name(s) + " {"@,
        struct_fields(s),
        "}"@,
        "impl "@ + basename + " for "@ + struct_name(s) + " { }"@,
    ]
}

/// The lines of the generated file for the first `n` descriptions.
pub open spec fn ast_lines(basename: Seq<char>, types: Seq<Seq<char>>, n: nat) -> Seq<Seq<char>>
    decreases n,
{
    if n == 0 {
        head_lines(basename)
    } else {
        ast_lines(basename, types, (n - 1) as nat) + struct_lines(basename, types[n - 1])
    }
}

/// The views of a list of texts, in order.
pub open spec fn texts_view(texts: &Vec<String>) -> Seq<Seq<char>> {
    lines_view(texts)
}

proof fn lemma_field_end(s: Seq<char>, from: int)
    requires
        0 <= from <= s.len(),
    ensures
        from <= field_end(s, from) <= s.len(),
    decreases s.len() - from,
{
    if from < s.len() && s[from] != ';' {
        lemma_field_end(s, from + 1);
    }
}

fn space(c: char) -> (r: bool)
    ensures
        r == is_space(c),
{
    c == ' ' || ('\t' <= c && c <= '\r') || c == '\u{85}' || c == '\u{a0}' || c == '\u{1680}' || (
    '\u{2000}' <= c && c <= '\u{200a}') || c == '\u{2028}' || c == '\u{2029}' || c == '\u{202f}'
        || c == '\u{205f}' || c == '\u{3000}'
}

fn find_field_end(chars: &Vec<char>, from: usize) -> (end: usize)
    requires
        from <= chars.len(),
    ensures
        end == field_end(chars@, from as int),
        from <= end <= chars.len(),
{
    let mut i = from;
    while i < chars.len() && chars[i] != ';'
        invariant
            from <= i <= chars.len(),
            field_end(chars@, i as int) == field_end(chars@, from as int),
        decreases chars.len() - i,
    {
        i += 1;
    }
    i
}

/// `text[from..to]` without the white space at its ends.
fn trim(text: &str, chars: &Vec<char>, from: usize, to: usize) -> (r: String)
    requires
        chars@ == text@,
        from <= to <= chars.len(),
    ensures
        r@ == trimmed(text@, from as int, to as int),
{
    let mut start = from;
    while start < to && space(chars[start])
        invariant
            from <= start <= to <= chars.len(),
            trim_start(chars@, start as int, to as int) == trim_start(
                chars@,
                from as int,
                to as int,
            ),
        decreases to - start,
    {
        start += 1;
    }
    let mut end = to;
    while start < end && space(chars[end - 1])
        invariant
            start <= end <= to <= chars.len(),
            trim_end(chars@, start as int, end as int) == trim_end(
                chars@,
                start as int,
                to as int,
            ),
        decreases end - start,
    {
        end -= 1;
    }
    text.substring_char(start, end).to_string()
}

/// The lines of a source file that declares the trait `basename` and, for
/// each description in `token_types`, a struct that implements it. A
/// description is a name and, behind a `;`, the fields.
pub fn define_ast(basename: &str, token_types: &Vec<String>) -> (lines: Vec<String>)
    requires
        forall|i: int| 0 <= i < token_types.len() ==> has_fields(#[trigger] token_types[i]@),
    ensures
        texts_view(&lines) == ast_lines(
            basename@,
            texts_view(token_types),
            token_types.len() as nat,
        ),
{
    let mut lines: Vec<String> = Vec::new();
    lines.push("use crate::token::{Token, TokenLiteral};".to_string());
    let mut opening = "pub trait ".to_string();
    opening.append(basename);
    opening.append(" {");
    lines.push(opening);
    lines.push("}".to_string());
    assert(texts_view(&lines) =~= head_lines(basename@));
    let mut i: usize = 0;
    while i < token_types.len()
        invariant
            i <= token_types.len(),
            forall|k: int| 0 <= k < token_types.len() ==> has_fields(#[trigger] token_types[k]@),
            texts_view(&lines) == ast_lines(basename@, texts_view(token_types), i as nat),
        decreases token_types.len() - i,
    {
        let text = token_types[i].as_str();
        let chars = chars_of(text);
        let first = find_field_end(&chars, 0);
        assert(has_fields(token_types[i as int]@));
        let second = find_field_end(&chars, first + 1);
        let name = trim(text, &chars, 0, first);
        let fields = trim(text, &chars, first + 1, second);
        let ghost before = texts_view(&lines);
        let mut declared = "pub struct ".to_string();
        declared.append(name.as_str());
        declared.append(" {");
        let mut implemented = "impl ".to_string();
        implemented.append(basename);
        implemented.append(" for ");
        implemented.append(name.as_str());
        implemented.append(" { }");
        lines.push(declared);
        lines.push(fields);
        lines.push("}".to_string());
        lines.push(implemented);
        assert(texts_view(token_types)[i as int] == token_types[i as int]@);
        assert(texts_view(&lines) =~= before + struct_lines(basename@, token_types[i as int]@));
        i += 1;
    }
    lines
}

proof fn lemma_field_end_before(s: Seq<char>, from: int, at: int)
    requires
        0 <= from <= at < s.len(),
        s[at] == ';',
    ensures
        field_end(s, from) <= at,
    decreases at - from,
{
    if from < at && s[from] != ';' {
        lemma_field_end_before(s, from + 1, at);
    }
}

/// The descriptions of the expression nodes that the generated file declares.
pub open spec fn expression_nodes() -> Seq<Seq<char>> {
    seq![
        "Binary   ; left: Option<Box<Expr>>, right: Option<Box<Expr>>, operator: Token"@,
        "Grouping ; expression: Option<Box<Expr>>"@,
        "Literal  ; value: TokenLiteral"@,
        "Unary    ; operator: Token, right: Option<Box<Expr>>"@,
    ]
}

/// The lines of the generated file for the expression nodes.
pub fn run_generator() -> (lines: Vec<String>)
    ensures
        texts_view(&lines) == ast_lines("Expr"@, expression_nodes(), 4),
{
    let binary = "Binary   ; left: Option<Box<Expr>>, right: Option<Box<Expr>>, operator: Token";
    let grouping = "Grouping ; expression: Option<Box<Expr>>";
    let literal = "Literal  ; value: TokenLiteral";
    let unary = "Unary    ; operator: Token, right: Option<Box<Expr>>";
    proof {
        reveal_strlit(
            "Binary   ; left: Option<Box<Expr>>, right: Option<Box<Expr>>, operator: Token",
        );
        reveal_strlit("Grouping ; expression: Option<Box<Expr>>");
        reveal_strlit("Literal  ; value: TokenLiteral");
        reveal_strlit("Unary    ; operator: Token, right: Option<Box<Expr>>");
        lemma_field_end_before(binary@, 0, 9);
        lemma_field_end_before(grouping@, 0, 9);
        lemma_field_end_before(literal@, 0, 9);
        lemma_field_end_before(unary@, 0, 9);
    }
    let mut token_types: Vec<String> = Vec::new();
    token_types.push(binary.to_string());
    token_types.push(grouping.to_string());
    token_types.push(literal.to_string());
    token_types.push(unary.to_string());
    assert(texts_view(&token_types) =~= expression_nodes());
    define_ast("Expr", &token_types)
}

} // verus!
