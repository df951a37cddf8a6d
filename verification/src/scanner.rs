use crate::error::{errors_view, push_error, LuxError, LuxErrorView};
use crate::literal::{Float, Literal, LiteralView};
use crate::number::read_bits;
use crate::text::chars_of;
use crate::token::{tokens_view, Token, TokenView};
use crate::token_type::Types;
use vstd::prelude::*;
use vstd::string::{StrSliceExecFns, StringExecFnsIsAscii};

verus! {

/// Whether `c` is a decimal digit.
pub open spec fn is_digit_spec(c: char) -> bool {
    '0' <= c && c <= '9'
}

/// Whether `c` may start an identifier.
pub open spec fn is_alpha_spec(c: char) -> bool {
    ('a' <= c && c <= 'z') || ('A' <= c && c <= 'Z') || c == '_'
}

/// Whether `c` may continue an identifier.
pub open spec fn is_alphanumeric_spec(c: char) -> bool {
    is_alpha_spec(c) || is_digit_spec(c)
}

/// The first position at or after `from` that holds no digit.
pub open spec fn digits_end(src: Seq<char>, from: int) -> int
    decreases src.len() - from,
{
    if 0 <= from < src.len() && is_digit_spec(src[from]) {
        digits_end(src, from + 1)
    } else {
        from
    }
}

/// The first position at or after `from` that cannot continue an identifier.
pub open spec fn identifier_end(src: Seq<char>, from: int) -> int
    decreases src.len() - from,
{
    if 0 <= from < src.len() && is_alphanumeric_spec(src[from]) {
        identifier_end(src, from + 1)
    } else {
        from
    }
}

/// The first position at or after `from` that holds a newline, or the end.
pub open spec fn line_end(src: Seq<char>, from: int) -> int
    decreases src.len() - from,
{
    if 0 <= from < src.len() && src[from] != '\n' {
        line_end(src, from + 1)
    } else {
        from
    }
}

/// The line after one more newline; the counter stops at the largest number.
pub open spec fn next_line(line: usize) -> usize {
    if line < usize::MAX {
        (line + 1) as usize
    } else {
        line
    }
}

/// Where the body of a string that starts at `from` ends (the closing quote,
/// or the end of the source), and the line reached there.
pub open spec fn string_end(src: Seq<char>, from: int, line: usize) -> (int, usize)
    decreases src.len() - from,
{
    if 0 <= from < src.len() && src[from] != '"' {
        string_end(
            src,
            from + 1,
            if src[from] == '\n' {
                next_line(line)
            } else {
                line
            },
        )
    } else {
        (from, line)
    }
}

/// The kind of the word `text`: that of the keyword, or `IDENTIFIER`.
pub open spec fn keyword_spec(text: Seq<char>) -> Types {
    if text == "and"@ {
        Types::AND
    } else if text == "class"@ {
        Types::CLASS
    } else if text == "else"@ {
        Types::ELSE
    } else if text == "false"@ {
        Types::FALSE
    } else if text == "for"@ {
        Types::FOR
    } else if text == "fun"@ {
        Types::FUN
    } else if text == "if"@ {
        Types::IF
    } else if text == "nil"@ {
        Types::NIL
    } else if text == "or"@ {
        Types::OR
    } else if text == "print"@ {
        Types::PRINT
    } else if text == "return"@ {
        Types::RETURN
    } else if text == "super"@ {
        Types::SUPER
    } else if text == "this"@ {
        Types::THIS
    } else if text == "true"@ {
        Types::TRUE
    } else if text == "var"@ {
        Types::VAR
    } else if text == "while"@ {
        Types::WHILE
    } else {
        Types::IDENTIFIER
    }
}

/// What scanning one lexeme gives: where the next one starts, the line
/// reached, and the token or the diagnostic, if any.
pub struct Lexed {
    pub next: int,
    pub line: usize,
    pub token: Option<TokenView>,
    pub error: Option<LuxErrorView>,
}

/// The token of kind `kind` whose text is `src[start..end]`.
pub open spec fn token_spec(
    src: Seq<char>,
    start: int,
    end: int,
    kind: Types,
    literal: LiteralView,
    line: usize,
) -> TokenView {
    TokenView { type_t: kind, lexeme: src.subrange(start, end), literal, line }
}

/// A lexeme that gives the token `kind` with no literal.
pub open spec fn plain(src: Seq<char>, start: int, end: int, kind: Types, line: usize) -> Lexed {
    Lexed {
        next: end,
        line,
        token: Some(token_spec(src, start, end, kind, LiteralView::Nil, line)),
        error: None,
    }
}

/// A lexeme that gives nothing.
pub open spec fn skipped(end: int, line: usize) -> Lexed {
    Lexed { next: end, line, token: None, error: None }
}

/// A lexeme that gives a diagnostic.
pub open spec fn failed(end: int, line: usize, message: Seq<char>) -> Lexed {
    Lexed {
        next: end,
        line,
        token: None,
        error: Some(LuxErrorView { message, line, location: ""@ }),
    }
}

/// An operator of one character, or of two where `second` follows.
pub open spec fn operator_spec(
    src: Seq<char>,
    start: int,
    line: usize,
    second: char,
    two: Types,
    one: Types,
) -> Lexed {
    if start + 1 < src.len() && src[start + 1] == second {
        plain(src, start, start + 2, two, line)
    } else {
        plain(src, start, start + 1, one, line)
    }
}

/// A string literal that opens at `start`: its value is the text between the
/// quotes, its line the one on which it closes.
pub open spec fn string_spec(src: Seq<char>, start: int, line: usize) -> Lexed {
    let (end, reached) = string_end(src, start + 1, line);
    if end >= src.len() {
        failed(end, reached, "Unterminated string"@)
    } else {
        Lexed {
            next: end + 1,
            line: reached,
            token: Some(
                token_spec(
                    src,
                    start,
                    end + 1,
                    Types::STRING,
                    LiteralView::String(src.subrange(start + 1, end)),
                    reached,
                ),
            ),
            error: None,
        }
    }
}

/// Where a number literal that starts at `start` ends: after its digits, and
/// after a fraction where a dot and a digit follow them.
pub open spec fn number_end(src: Seq<char>, start: int) -> int {
    let whole = digits_end(src, start + 1);
    if whole + 1 < src.len() && src[whole] == '.' && is_digit_spec(src[whole + 1]) {
        digits_end(src, whole + 1)
    } else {
        whole
    }
}

/// A number literal that starts at `start`.
pub open spec fn number_spec(src: Seq<char>, start: int, line: usize) -> Lexed {
    let end = number_end(src, start);
    match read_bits(src.subrange(start, end)) {
        Some(bits) => Lexed {
            next: end,
            line,
            token: Some(
                token_spec(src, start, end, Types::NUMBER, LiteralView::Number(bits), line),
            ),
            error: None,
        },
        None => failed(end, line, "Invalid number"@),
    }
}

/// An identifier or keyword that starts at `start`.
pub open spec fn identifier_spec(src: Seq<char>, start: int, line: usize) -> Lexed {
    let end = identifier_end(src, start + 1);
    plain(src, start, end, keyword_spec(src.subrange(start, end)), line)
}

/// What the lexeme that starts at `start` gives.
pub open spec fn lex_spec(src: Seq<char>, start: int, line: usize) -> Lexed
    recommends
        0 <= start < src.len(),
{
    let c = src[start];
    if c == '(' {
        plain(src, start, start + 1, Types::LEFT_PAREN, line)
    } else if c == ')' {
        plain(src, start, start + 1, Types::RIGHT_PAREN, line)
    } else if c == '{' {
        plain(src, start, start + 1, Types::LEFT_BRACE, line)
    } else if c == '}' {
        plain(src, start, start + 1, Types::RIGHT_BRACE, line)
    } else if c == ',' {
        plain(src, start, start + 1, Types::COMMA, line)
    } else if c == '.' {
        plain(src, start, start + 1, Types::DOT, line)
    } else if c == '-' {
        plain(src, start, start + 1, Types::MINUS, line)
    } else if c == '+' {
        plain(src, start, start + 1, Types::PLUS, line)
    } else if c == ';' {
        plain(src, start, start + 1, Types::SEMICOLON, line)
    } else if c == '*' {
        plain(src, start, start + 1, Types::STAR, line)
    } else if c == '!' {
        operator_spec(src, start, line, '=', Types::BANG_EQUAL, Types::BANG)
    } else if c == '=' {
        operator_spec(src, start, line, '=', Types::EQUAL_EQUAL, Types::EQUAL)
    } else if c == '<' {
        operator_spec(src, start, line, '=', Types::LESS_EQUAL, Types::LESS)
    } else if c == '>' {
        operator_spec(src, start, line, '=', Types::GREATER_EQUAL, Types::GREATER)
    } else if c == '/' {
        if start + 1 < src.len() && src[start + 1] == '/' {
            skipped(line_end(src, start + 2), line)
        } else {
            plain(src, start, start + 1, Types::SLASH, line)
        }
    } else if c == ' ' || c == '\r' || c == '\t' {
        skipped(start + 1, line)
    } else if c == '\n' {
        skipped(start + 1, next_line(line))
    } else if c == '"' {
        string_spec(src, start, line)
    } else if is_digit_spec(c) {
        number_spec(src, start, line)
    } else if is_alpha_spec(c) {
        identifier_spec(src, start, line)
    } else {
        failed(start + 1, line, "Unexpected character"@)
    }
}

/// `items` with `item` appended where there is one.
pub open spec fn push_some<T>(items: Seq<T>, item: Option<T>) -> Seq<T> {
    match item {
        Some(x) => items.push(x),
        None => items,
    }
}

/// The token that ends every token sequence.
pub open spec fn eof_token(line: usize) -> TokenView {
    TokenView { type_t: Types::EOF, lexeme: ""@, literal: LiteralView::Nil, line }
}

/// What a scan of a whole source gives.
pub struct Scanned {
    pub tokens: Seq<TokenView>,
    pub errors: Seq<LuxErrorView>,
    pub line: usize,
}

/// The digits from `from` on end at or behind `from`, within the source.
pub proof fn lemma_digits_end_reaches(src: Seq<char>, from: int)
    requires
        0 <= from <= src.len(),
    ensures
        from <= digits_end(src, from) <= src.len(),
    decreases src.len() - from,
{
    if from < src.len() && is_digit_spec(src[from]) {
        lemma_digits_end_reaches(src, from + 1);
    }
}

/// The characters of an identifier from `from` on end at or behind `from`,
/// within the source.
pub proof fn lemma_identifier_end_reaches(src: Seq<char>, from: int)
    requires
        0 <= from <= src.len(),
    ensures
        from <= identifier_end(src, from) <= src.len(),
    decreases src.len() - from,
{
    if from < src.len() && is_alphanumeric_spec(src[from]) {
        lemma_identifier_end_reaches(src, from + 1);
    }
}

proof fn lemma_line_end(src: Seq<char>, from: int)
    requires
        0 <= from <= src.len(),
    ensures
        from <= line_end(src, from) <= src.len(),
    decreases src.len() - from,
{
    if from < src.len() && src[from] != '\n' {
        lemma_line_end(src, from + 1);
    }
}

/// The body of a string from `from` on ends at or behind `from`, within the
/// source.
pub proof fn lemma_string_end_reaches(src: Seq<char>, from: int, line: usize)
    requires
        0 <= from <= src.len(),
    ensures
        from <= string_end(src, from, line).0 <= src.len(),
    decreases src.len() - from,
{
    if from < src.len() && src[from] != '"' {
        lemma_string_end_reaches(
            src,
            from + 1,
            if src[from] == '\n' {
                next_line(line)
            } else {
                line
            },
        );
    }
}

/// Every lexeme takes at least one character and ends within the source.
pub proof fn lemma_lex_advances(src: Seq<char>, start: int, line: usize)
    requires
        0 <= start < src.len(),
    ensures
        start < lex_spec(src, start, line).next <= src.len(),
{
    lemma_line_end(src, start + 1);
    if start + 2 <= src.len() {
        lemma_line_end(src, start + 2);
    }
    lemma_string_end_reaches(src, start + 1, line);
    lemma_digits_end_reaches(src, start + 1);
    let whole = digits_end(src, start + 1);
    if whole + 1 < src.len() {
        lemma_digits_end_reaches(src, whole + 1);
    }
    lemma_identifier_end_reaches(src, start + 1);
}

/// The tokens and diagnostics of the source from `pos` on, after those in
/// `tokens` and `errors`; the tokens end with `EOF`.
pub open spec fn scan_spec(
    src: Seq<char>,
    pos: int,
    line: usize,
    tokens: Seq<TokenView>,
    errors: Seq<LuxErrorView>,
) -> Scanned
    decreases src.len() - pos,
{
    if pos < 0 || pos >= src.len() {
        Scanned { tokens: tokens.push(eof_token(line)), errors, line }
    } else {
        let step = lex_spec(src, pos, line);
        proof {
            lemma_lex_advances(src, pos, line);
        }
        scan_spec(
            src,
            step.next,
            step.line,
            push_some(tokens, step.token),
            push_some(errors, step.error),
        )
    }
}

/// The tokens and diagnostics of a whole source.
pub open spec fn scan_source(src: Seq<char>) -> Scanned {
    scan_spec(src, 0, 1, Seq::empty(), Seq::empty())
}

/// Appends a token to a list.
pub fn push_token(tokens: &mut Vec<Token>, token: Token)
    ensures
        tokens_view(final(tokens)) == tokens_view(old(tokens)).push(token@),
        final(tokens).len() == old(tokens).len() + 1,
{
    tokens.push(token);
    assert(tokens_view(tokens) =~= tokens_view(old(tokens)).push(token@));
}

/// A scanner over the characters of a source text. `chars` holds the
/// characters of `source`, and `ascii` says whether all of them are ASCII.
pub struct Scanner {
    pub source: String,
    pub chars: Vec<char>,
    pub ascii: bool,
    pub tokens: Vec<Token>,
    pub errors: Vec<LuxError>,
    pub start: usize,
    pub current: usize,
    pub line: usize,
}

impl Scanner {
    /// The window of the current lexeme lies within the source, and the
    /// scanner's copy of the characters is that of the source.
    pub open spec fn wf(&self) -> bool {
        self.start <= self.current <= self.source@.len() && self.synced()
    }

    /// The scanner's copy of the characters is that of the source.
    pub open spec fn synced(&self) -> bool {
        &&& self.chars@ == self.source@
        &&& self.chars.len() == self.source@.len()
        &&& self.ascii ==> self.source.is_ascii()
    }

    /// A scanner at the start of `source`, on line 1.
    pub fn new(source: String) -> (scanner: Scanner)
        ensures
            scanner.source == source,
            scanner.tokens@ == Seq::<Token>::empty(),
            scanner.errors@ == Seq::<LuxError>::empty(),
            scanner.start == 0,
            scanner.current == 0,
            scanner.line == 1,
            scanner.wf(),
    {
        Scanner {
            chars: chars_of(source.as_str()),
            ascii: source.is_ascii(),
            source,
            tokens: Vec::new(),
            errors: Vec::new(),
            start: 0,
            current: 0,
            line: 1,
        }
    }

    /// Scans the rest of the source. The tokens, closed by `EOF`, are added to
    /// `tokens`; the diagnostics to `errors`.
    pub fn scan_tokens(&mut self)
        requires
            old(self).synced(),
            old(self).current <= old(self).source@.len(),
        ensures
            final(self).source == old(self).source,
            final(self).wf(),
            ({
                let all = scan_spec(
                    old(self).source@,
                    old(self).current as int,
                    old(self).line,
                    tokens_view(&old(self).tokens),
                    errors_view(&old(self).errors),
                );
                &&& tokens_view(&final(self).tokens) == all.tokens
                &&& errors_view(&final(self).errors) == all.errors
                &&& final(self).line == all.line
            }),
    {
        while !self.is_at_end()
            invariant
                self.source == old(self).source,
                self.synced(),
                self.current <= self.source@.len(),
                scan_spec(
                    self.source@,
                    self.current as int,
                    self.line,
                    tokens_view(&self.tokens),
                    errors_view(&self.errors),
                ) == scan_spec(
                    old(self).source@,
                    old(self).current as int,
                    old(self).line,
                    tokens_view(&old(self).tokens),
                    errors_view(&old(self).errors),
                ),
            decreases self.source@.len() - self.current,
        {
            self.start = self.current;
            proof {
                lemma_lex_advances(self.source@, self.current as int, self.line);
            }
            match self.scan_token() {
                Ok(()) => {},
                Err(error) => {
                    push_error(&mut self.errors, error);
                },
            }
        }
        self.start = self.current;
        let token = Token::new(Types::EOF, "".to_string(), Literal::Nil, self.line);
        push_token(&mut self.tokens, token);
    }

    fn is_at_end(&self) -> (r: bool)
        requires
            self.synced(),
        ensures
            r == (self.current >= self.source@.len()),
    {
        self.current >= self.chars.len()
    }

    /// Scans the lexeme that starts at `current`. A token is added to
    /// `tokens`; a diagnostic is returned.
    pub fn scan_token(&mut self) -> (r: Result<(), LuxError>)
        requires
            old(self).synced(),
            old(self).start == old(self).current,
            old(self).current < old(self).source@.len(),
        ensures
            final(self).source == old(self).source,
            final(self).errors == old(self).errors,
            final(self).start == old(self).start,
            final(self).wf(),
            ({
                let step = lex_spec(old(self).source@, old(self).current as int, old(self).line);
                &&& final(self).current == step.next
                &&& final(self).line == step.line
                &&& tokens_view(&final(self).tokens) == push_some(
                    tokens_view(&old(self).tokens),
                    step.token,
                )
                &&& match r {
                    Ok(()) => step.error is None,
                    Err(error) => step.error == Some(error@),
                }
            }),
    {
        proof {
            lemma_lex_advances(self.source@, self.current as int, self.line);
        }
        let c = self.advance();
        if c == '(' {
            self.add_token(Types::LEFT_PAREN);
            Ok(())
        } else if c == ')' {
            self.add_token(Types::RIGHT_PAREN);
            Ok(())
        } else if c == '{' {
            self.add_token(Types::LEFT_BRACE);
            Ok(())
        } else if c == '}' {
            self.add_token(Types::RIGHT_BRACE);
            Ok(())
        } else if c == ',' {
            self.add_token(Types::COMMA);
            Ok(())
        } else if c == '.' {
            self.add_token(Types::DOT);
            Ok(())
        } else if c == '-' {
            self.add_token(Types::MINUS);
            Ok(())
        } else if c == '+' {
            self.add_token(Types::PLUS);
            Ok(())
        } else if c == ';' {
            self.add_token(Types::SEMICOLON);
            Ok(())
        } else if c == '*' {
            self.add_token(Types::STAR);
            Ok(())
        } else if c == '!' {
            let kind = if self.matches_char('=') {
                Types::BANG_EQUAL
            } else {
                Types::BANG
            };
            self.add_token(kind);
            Ok(())
        } else if c == '=' {
            let kind = if self.matches_char('=') {
                Types::EQUAL_EQUAL
            } else {
                Types::EQUAL
            };
            self.add_token(kind);
            Ok(())
        } else if c == '<' {
            let kind = if self.matches_char('=') {
                Types::LESS_EQUAL
            } else {
                Types::LESS
            };
            self.add_token(kind);
            Ok(())
        } else if c == '>' {
            let kind = if self.matches_char('=') {
                Types::GREATER_EQUAL
            } else {
                Types::GREATER
            };
            self.add_token(kind);
            Ok(())
        } else if c == '/' {
            if self.matches_char('/') {
                self.comment();
            } else {
                self.add_token(Types::SLASH);
            }
            Ok(())
        } else if c == ' ' || c == '\r' || c == '\t' {
            Ok(())
        } else if c == '\n' {
            self.line = Self::line_after(self.line);
            Ok(())
        } else if c == '"' {
            self.string()
        } else if Self::is_digit(c) {
            self.number()
        } else if Self::is_alpha(c) {
            self.identifier();
            Ok(())
        } else {
            Err(LuxError::report(self.line, "", "Unexpected character"))
        }
    }

    fn line_after(line: usize) -> (r: usize)
        ensures
            r == next_line(line),
    {
        if line < usize::MAX {
            line + 1
        } else {
            line
        }
    }

    /// Takes the character at `current`.
    pub fn advance(&mut self) -> (c: char)
        requires
            old(self).synced(),
            old(self).current < old(self).source@.len(),
        ensures
            c == old(self).source@[old(self).current as int],
            *final(self) == (Scanner { current: (old(self).current + 1) as usize, ..*old(self) }),
    {
        let c = self.chars[self.current];
        self.current += 1;
        c
    }

    /// Adds the token of kind `token_type` whose text is the current lexeme.
    pub fn add_token(&mut self, token_type: Types)
        requires
            old(self).wf(),
        ensures
            final(self).source == old(self).source,
            final(self).chars == old(self).chars,
            final(self).ascii == old(self).ascii,
            final(self).errors == old(self).errors,
            final(self).start == old(self).start,
            final(self).current == old(self).current,
            final(self).line == old(self).line,
            tokens_view(&final(self).tokens) == tokens_view(&old(self).tokens).push(
                token_spec(
                    old(self).source@,
                    old(self).start as int,
                    old(self).current as int,
                    token_type,
                    LiteralView::Nil,
                    old(self).line,
                ),
            ),
    {
        self.add_token_literal(token_type, Literal::Nil)
    }

    /// The text of `source[from..to]`.
    fn lexeme(&self, from: usize, to: usize) -> (text: String)
        requires
            self.synced(),
            from <= to <= self.source@.len(),
        ensures
            text@ == self.source@.subrange(from as int, to as int),
    {
        if self.ascii {
            self.source.as_str().substring_ascii(from, to).to_string()
        } else {
            self.source.as_str().substring_char(from, to).to_string()
        }
    }

    fn add_token_literal(&mut self, token_type: Types, literal: Literal)
        requires
            old(self).wf(),
        ensures
            final(self).source == old(self).source,
            final(self).chars == old(self).chars,
            final(self).ascii == old(self).ascii,
            final(self).errors == old(self).errors,
            final(self).start == old(self).start,
            final(self).current == old(self).current,
            final(self).line == old(self).line,
            tokens_view(&final(self).tokens) == tokens_view(&old(self).tokens).push(
                token_spec(
                    old(self).source@,
                    old(self).start as int,
                    old(self).current as int,
                    token_type,
                    literal@,
                    old(self).line,
                ),
            ),
    {
        let text = self.lexeme(self.start, self.current);
        push_token(&mut self.tokens, Token::new(token_type, text, literal, self.line));
    }

    fn matches_char(&mut self, expected: char) -> (r: bool)
        requires
            old(self).synced(),
            old(self).current <= old(self).source@.len(),
        ensures
            r == (old(self).current < old(self).source@.len() && old(self).source@[old(
                self,
            ).current as int] == expected),
            *final(self) == (Scanner {
                current: if r {
                    (old(self).current + 1) as usize
                } else {
                    old(self).current
                },
                ..*old(self)
            }),
    {
        if self.is_at_end() || self.chars[self.current] != expected {
            false
        } else {
            self.current += 1;
            true
        }
    }

    fn peek(&self) -> (c: char)
        requires
            self.synced(),
        ensures
            c == if self.current < self.source@.len() {
                self.source@[self.current as int]
            } else {
                '\0'
            },
    {
        if self.is_at_end() {
            '\0'
        } else {
            self.chars[self.current]
        }
    }

    fn peek_next(&self) -> (c: char)
        requires
            self.synced(),
        ensures
            c == if self.current + 1 < self.source@.len() {
                self.source@[self.current + 1]
            } else {
                '\0'
            },
    {
        if self.current >= self.chars.len() || self.current + 1 >= self.chars.len() {
            '\0'
        } else {
            self.chars[self.current + 1]
        }
    }

    fn comment(&mut self)
        requires
            old(self).synced(),
            old(self).current <= old(self).source@.len(),
        ensures
            *final(self) == (Scanner {
                current: line_end(old(self).source@, old(self).current as int) as usize,
                ..*old(self)
            }),
            old(self).current <= line_end(old(self).source@, old(self).current as int) <= old(
                self,
            ).source@.len(),
    {
        let mut i = self.current;
        while i < self.chars.len() && self.chars[i] != '\n'
            invariant
                i <= self.source@.len(),
                old(self).current <= i,
                line_end(self.source@, i as int) == line_end(
                    self.source@,
                    old(self).current as int,
                ),
                *self == *old(self),
                self.synced(),
            decreases self.source@.len() - i,
        {
            i += 1;
        }
        self.current = i;
    }

    fn string(&mut self) -> (r: Result<(), LuxError>)
        requires
            old(self).synced(),
            old(self).start < old(self).current <= old(self).source@.len(),
            old(self).current == old(self).start + 1,
        ensures
            final(self).source == old(self).source,
            final(self).errors == old(self).errors,
            final(self).start == old(self).start,
            final(self).wf(),
            ({
                let step = string_spec(old(self).source@, old(self).start as int, old(self).line);
                &&& final(self).current == step.next
                &&& final(self).line == step.line
                &&& tokens_view(&final(self).tokens) == push_some(
                    tokens_view(&old(self).tokens),
                    step.token,
                )
                &&& match r {
                    Ok(()) => step.error is None,
                    Err(error) => step.error == Some(error@),
                }
            }),
    {
        let mut i = self.current;
        let mut line = self.line;
        while i < self.chars.len() && self.chars[i] != '"'
            invariant
                i <= self.source@.len(),
                old(self).current <= i,
                string_end(self.source@, i as int, line) == string_end(
                    self.source@,
                    old(self).current as int,
                    old(self).line,
                ),
                *self == *old(self),
                self.synced(),
            decreases self.source@.len() - i,
        {
            if self.chars[i] == '\n' {
                line = Self::line_after(line);
            }
            i += 1;
        }
        self.line = line;
        self.current = i;
        if self.is_at_end() {
            return Err(LuxError::report(self.line, "", "Unterminated string"));
        }
        self.current += 1;
        let value = self.lexeme(self.start + 1, self.current - 1);
        self.add_token_literal(Types::STRING, Literal::String(value));
        Ok(())
    }

    fn number(&mut self) -> (r: Result<(), LuxError>)
        requires
            old(self).synced(),
            old(self).start < old(self).current <= old(self).source@.len(),
            old(self).current == old(self).start + 1,
        ensures
            final(self).source == old(self).source,
            final(self).errors == old(self).errors,
            final(self).start == old(self).start,
            final(self).wf(),
            ({
                let step = number_spec(old(self).source@, old(self).start as int, old(self).line);
                &&& final(self).current == step.next
                &&& final(self).line == step.line
                &&& tokens_view(&final(self).tokens) == push_some(
                    tokens_view(&old(self).tokens),
                    step.token,
                )
                &&& match r {
                    Ok(()) => step.error is None,
                    Err(error) => step.error == Some(error@),
                }
            }),
    {
        self.digits();
        if self.peek() == '.' && Self::is_digit(self.peek_next()) {
            self.current += 1;
            self.digits();
        }
        let text = self.lexeme(self.start, self.current);
        let value = Float::parse(text.as_str());
        self.number_token(value)
    }

    /// Ends a number literal, given what was read from the current lexeme: a
    /// value gives the `NUMBER` token with that value, no value the
    /// diagnostic "Invalid number".
    pub fn number_token(&mut self, value: Option<Float>) -> (r: Result<(), LuxError>)
        requires
            old(self).wf(),
        ensures
            final(self).source == old(self).source,
            final(self).chars == old(self).chars,
            final(self).ascii == old(self).ascii,
            final(self).errors == old(self).errors,
            final(self).start == old(self).start,
            final(self).current == old(self).current,
            final(self).line == old(self).line,
            match value {
                Some(number) => r is Ok && tokens_view(&final(self).tokens) == tokens_view(
                    &old(self).tokens,
                ).push(
                    token_spec(
                        old(self).source@,
                        old(self).start as int,
                        old(self).current as int,
                        Types::NUMBER,
                        LiteralView::Number(number.0),
                        old(self).line,
                    ),
                ),
                None => final(self).tokens == old(self).tokens && (r matches Err(error) && error@
                    == (LuxErrorView {
                    message: "Invalid number"@,
                    line: old(self).line,
                    location: ""@,
                })),
            },
    {
        match value {
            Some(number) => {
                self.add_token_literal(Types::NUMBER, Literal::Number(number));
                Ok(())
            },
            None => Err(LuxError::report(self.line, "", "Invalid number")),
        }
    }

    fn digits(&mut self)
        requires
            old(self).synced(),
            old(self).start <= old(self).current <= old(self).source@.len(),
        ensures
            *final(self) == (Scanner {
                current: digits_end(old(self).source@, old(self).current as int) as usize,
                ..*old(self)
            }),
            old(self).current <= digits_end(old(self).source@, old(self).current as int) <= old(
                self,
            ).source@.len(),
    {
        let mut i = self.current;
        while i < self.chars.len() && Self::is_digit(self.chars[i])
            invariant
                i <= self.source@.len(),
                old(self).current <= i,
                digits_end(self.source@, i as int) == digits_end(
                    self.source@,
                    old(self).current as int,
                ),
                *self == *old(self),
                self.synced(),
            decreases self.source@.len() - i,
        {
            i += 1;
        }
        self.current = i;
    }

    fn identifier(&mut self)
        requires
            old(self).synced(),
            old(self).start < old(self).current <= old(self).source@.len(),
            old(self).current == old(self).start + 1,
        ensures
            final(self).source == old(self).source,
            final(self).errors == old(self).errors,
            final(self).start == old(self).start,
            final(self).wf(),
            ({
                let step = identifier_spec(
                    old(self).source@,
                    old(self).start as int,
                    old(self).line,
                );
                &&& final(self).current == step.next
                &&& final(self).line == step.line
                &&& tokens_view(&final(self).tokens) == push_some(
                    tokens_view(&old(self).tokens),
                    step.token,
                )
            }),
    {
        let mut i = self.current;
        while i < self.chars.len() && Self::is_alphanumeric(self.chars[i])
            invariant
                i <= self.source@.len(),
                old(self).current <= i,
                identifier_end(self.source@, i as int) == identifier_end(
                    self.source@,
                    old(self).current as int,
                ),
                *self == *old(self),
                self.synced(),
            decreases self.source@.len() - i,
        {
            i += 1;
        }
        self.current = i;
        let kind = self.keyword();
        self.add_token(kind);
    }

    /// Whether the current lexeme is `word`.
    fn is_word(&self, word: &str) -> (r: bool)
        requires
            self.wf(),
        ensures
            r == (self.source@.subrange(self.start as int, self.current as int) == word@),
    {
        let n = word.unicode_len();
        if self.current - self.start != n {
            return false;
        }
        let mut i: usize = 0;
        while i < n
            invariant
                i <= n,
                n == word@.len(),
                n == self.current - self.start,
                self.wf(),
                forall|k: int| 0 <= k < i ==> self.source@[self.start + k] == word@[k],
            decreases n - i,
        {
            if self.chars[self.start + i] != word.get_char(i) {
                assert(self.source@.subrange(self.start as int, self.current as int)[i as int]
                    != word@[i as int]);
                return false;
            }
            i += 1;
        }
        assert(self.source@.subrange(self.start as int, self.current as int) =~= word@);
        true
    }

    fn keyword(&self) -> (kind: Types)
        requires
            self.wf(),
        ensures
            kind == keyword_spec(self.source@.subrange(self.start as int, self.current as int)),
    {
        if self.is_word("and") {
            Types::AND
        } else if self.is_word("class") {
            Types::CLASS
        } else if self.is_word("else") {
            Types::ELSE
        } else if self.is_word("false") {
            Types::FALSE
        } else if self.is_word("for") {
            Types::FOR
        } else if self.is_word("fun") {
            Types::FUN
        } else if self.is_word("if") {
            Types::IF
        } else if self.is_word("nil") {
            Types::NIL
        } else if self.is_word("or") {
            Types::OR
        } else if self.is_word("print") {
            Types::PRINT
        } else if self.is_word("return") {
            Types::RETURN
        } else if self.is_word("super") {
            Types::SUPER
        } else if self.is_word("this") {
            Types::THIS
        } else if self.is_word("true") {
            Types::TRUE
        } else if self.is_word("var") {
            Types::VAR
        } else if self.is_word("while") {
            Types::WHILE
        } else {
            Types::IDENTIFIER
        }
    }

    fn is_alpha(c: char) -> (r: bool)
        ensures
            r == is_alpha_spec(c),
    {
        ('a' <= c && c <= 'z') || ('A' <= c && c <= 'Z') || c == '_'
    }

    fn is_digit(c: char) -> (r: bool)
        ensures
            r == is_digit_spec(c),
    {
        '0' <= c && c <= '9'
    }

    fn is_alphanumeric(c: char) -> (r: bool)
        ensures
            r == is_alphanumeric_spec(c),
    {
        Self::is_alpha(c) || Self::is_digit(c)
    }
}

} // verus!
