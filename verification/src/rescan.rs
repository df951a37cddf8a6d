use crate::error::LuxErrorView;
use crate::laws::law_lexeme_scans_as_its_token;
use crate::literal::LiteralView;
use crate::scanner::{
    digits_end, identifier_end, is_alpha_spec, is_alphanumeric_spec, is_digit_spec,
    lemma_digits_end_reaches, lemma_identifier_end_reaches, lemma_lex_advances,
    lemma_string_end_reaches, lex_spec, next_line, number_end, push_some, scan_source, scan_spec,
    string_end, Lexed,
};
use crate::token::TokenView;
use crate::token_type::Types;
use vstd::prelude::*;

verus! {

/// Whether two tokens agree in all but the line.
pub open spec fn same_but_line(a: TokenView, b: TokenView) -> bool {
    a.type_t == b.type_t && a.lexeme == b.lexeme && a.literal == b.literal
}

/// Whether the text of `t`, scanned by itself from line `line`, is one lexeme
/// that gives `t` again, on whatever line.
pub open spec fn alone_at(t: TokenView, line: usize) -> bool {
    let alone = lex_spec(t.lexeme, 0, line);
    &&& t.lexeme.len() > 0
    &&& alone.error is None
    &&& alone.next == t.lexeme.len()
    &&& alone.token is Some
    &&& same_but_line(alone.token->Some_0, t)
}

/// Whether the text of `t`, scanned by itself from any line, gives `t` again.
pub open spec fn scans_alone(t: TokenView) -> bool {
    forall|line: usize| #[trigger] alone_at(t, line)
}

/// The texts of the tokens, in order.
pub open spec fn lexemes(ts: Seq<TokenView>) -> Seq<Seq<char>> {
    Seq::new(ts.len(), |i: int| ts[i].lexeme)
}

/// The texts, in order, with one space between each two.
pub open spec fn joined(texts: Seq<Seq<char>>) -> Seq<char>
    decreases texts.len(),
{
    if texts.len() == 0 {
        Seq::empty()
    } else if texts.len() == 1 {
        texts[0]
    } else {
        texts[0] + seq![' '] + joined(texts.drop_first())
    }
}

/// The texts of the tokens, in order, each with one space behind it.
pub open spec fn spaced(ts: Seq<TokenView>) -> Seq<char>
    decreases ts.len(),
{
    if ts.len() == 0 {
        Seq::empty()
    } else {
        ts[0].lexeme + seq![' '] + spaced(ts.drop_first())
    }
}

/// Where the last token has no text, joining the texts is the same as putting
/// a space behind each of the others.
proof fn lemma_joined_is_spaced(ts: Seq<TokenView>)
    requires
        ts.len() > 0,
        ts.last().lexeme.len() == 0,
    ensures
        joined(lexemes(ts)) == spaced(ts.drop_last()),
    decreases ts.len(),
{
    if ts.len() == 1 {
        assert(ts.drop_last().len() == 0);
        assert(joined(lexemes(ts)) =~= spaced(ts.drop_last()));
    } else {
        let rest = ts.drop_first();
        lemma_joined_is_spaced(rest);
        assert(lexemes(ts).drop_first() =~= lexemes(rest));
        assert(ts.drop_last().drop_first() =~= rest.drop_last());
        assert(ts.drop_last()[0] == ts[0]);
        assert(lexemes(ts)[0] == ts[0].lexeme);
    }
}

/// Where a string ends does not depend on the line it starts on.
proof fn lemma_string_end_any_line(src: Seq<char>, from: int, first: usize, second: usize)
    ensures
        string_end(src, from, first).0 == string_end(src, from, second).0,
    decreases src.len() - from,
{
    if 0 <= from < src.len() && src[from] != '"' {
        lemma_string_end_any_line(
            src,
            from + 1,
            if src[from] == '\n' {
                next_line(first)
            } else {
                first
            },
            if src[from] == '\n' {
                next_line(second)
            } else {
                second
            },
        );
    }
}

/// What a lexeme gives does not depend on the line, but for the lines in it.
proof fn lemma_lex_any_line(src: Seq<char>, start: int, first: usize, second: usize)
    requires
        0 <= start < src.len(),
    ensures
        lex_spec(src, start, first).next == lex_spec(src, start, second).next,
        (lex_spec(src, start, first).error is None) == (lex_spec(src, start, second).error
            is None),
        (lex_spec(src, start, first).token is Some) == (lex_spec(src, start, second).token
            is Some),
        lex_spec(src, start, first).token is Some ==> same_but_line(
            lex_spec(src, start, first).token->Some_0,
            lex_spec(src, start, second).token->Some_0,
        ),
{
    lemma_string_end_any_line(src, start + 1, first, second);
}

/// The digits of a text that stands in a longer text, with a space behind
/// it, end in the longer text where they end in the text.
proof fn lemma_digits_end_embedded(piece: Seq<char>, text: Seq<char>, p: int, j: int)
    requires
        0 <= p,
        p + piece.len() < text.len(),
        forall|i: int| 0 <= i < piece.len() ==> text[p + i] == piece[i],
        text[p + piece.len()] == ' ',
        0 <= j <= piece.len(),
    ensures
        digits_end(text, p + j) == p + digits_end(piece, j),
    decreases piece.len() - j,
{
    if j < piece.len() {
        assert(text[p + j] == piece[j]);
        if is_digit_spec(piece[j]) {
            lemma_digits_end_embedded(piece, text, p, j + 1);
        }
    }
}

/// The characters of an identifier likewise.
proof fn lemma_identifier_end_embedded(piece: Seq<char>, text: Seq<char>, p: int, j: int)
    requires
        0 <= p,
        p + piece.len() < text.len(),
        forall|i: int| 0 <= i < piece.len() ==> text[p + i] == piece[i],
        text[p + piece.len()] == ' ',
        0 <= j <= piece.len(),
    ensures
        identifier_end(text, p + j) == p + identifier_end(piece, j),
    decreases piece.len() - j,
{
    if j < piece.len() {
        assert(text[p + j] == piece[j]);
        if is_alphanumeric_spec(piece[j]) {
            lemma_identifier_end_embedded(piece, text, p, j + 1);
        }
    }
}

/// The body of a string that closes within a text likewise, on the same
/// line.
proof fn lemma_string_end_embedded(
    piece: Seq<char>,
    text: Seq<char>,
    p: int,
    j: int,
    line: usize,
)
    requires
        0 <= p,
        p + piece.len() < text.len(),
        forall|i: int| 0 <= i < piece.len() ==> text[p + i] == piece[i],
        0 <= j <= piece.len(),
        string_end(piece, j, line).0 < piece.len(),
    ensures
        string_end(text, p + j, line) == (
            p + string_end(piece, j, line).0,
            string_end(piece, j, line).1,
        ),
    decreases piece.len() - j,
{
    if j < piece.len() {
        assert(text[p + j] == piece[j]);
        if piece[j] != '"' {
            lemma_string_end_embedded(
                piece,
                text,
                p,
                j + 1,
                if piece[j] == '\n' {
                    next_line(line)
                } else {
                    line
                },
            );
        }
    }
}

/// A text that scans by itself as one token scans as that token where it
/// stands in a longer text with a space behind it.
proof fn lemma_lexeme_scans_before_a_space(
    piece: Seq<char>,
    text: Seq<char>,
    p: int,
    line: usize,
)
    requires
        0 <= p,
        piece.len() > 0,
        p + piece.len() < text.len(),
        forall|i: int| 0 <= i < piece.len() ==> text[p + i] == piece[i],
        text[p + piece.len()] == ' ',
        lex_spec(piece, 0, line).token is Some,
        lex_spec(piece, 0, line).error is None,
        lex_spec(piece, 0, line).next == piece.len(),
    ensures
        lex_spec(text, p, line) == (Lexed {
            next: p + piece.len(),
            ..lex_spec(piece, 0, line)
        }),
{
    let n = piece.len() as int;
    let alone = lex_spec(piece, 0, line);
    let c = piece[0];
    assert(text[p] == c);
    assert(text.subrange(p, p + n) =~= piece);
    assert(piece.subrange(0, n) =~= piece);
    if n >= 2 {
        assert(text[p + 1] == piece[1]);
    }
    if c == '"' {
        let (end, reached) = string_end(piece, 1, line);
        lemma_string_end_reaches(piece, 1, line);
        lemma_string_end_embedded(piece, text, p, 1, line);
        assert(text.subrange(p + 1, p + end) =~= piece.subrange(1, end));
    } else if is_digit_spec(c) {
        let whole = digits_end(piece, 1);
        lemma_digits_end_reaches(piece, 1);
        lemma_digits_end_embedded(piece, text, p, 1);
        if whole + 1 < n {
            lemma_digits_end_reaches(piece, whole + 1);
            lemma_digits_end_embedded(piece, text, p, whole + 1);
            assert(text[p + whole] == piece[whole]);
            assert(text[p + whole + 1] == piece[whole + 1]);
        } else if whole < n {
            assert(text[p + whole] == piece[whole]);
        }
        assert(number_end(text, p) == p + number_end(piece, 0));
    } else if is_alpha_spec(c) {
        lemma_identifier_end_reaches(piece, 1);
        lemma_identifier_end_embedded(piece, text, p, 1);
    } else {
    }
}

/// A scan adds tokens whose texts each scan alone as the token, and then one
/// `EOF` token, which has no text.
proof fn lemma_scanned_tokens_scan_alone(
    src: Seq<char>,
    pos: int,
    line: usize,
    tokens: Seq<TokenView>,
    errors: Seq<LuxErrorView>,
)
    requires
        forall|i: int| 0 <= i < tokens.len() ==> scans_alone(#[trigger] tokens[i]),
    ensures
        ({
            let all = scan_spec(src, pos, line, tokens, errors).tokens;
            &&& all.len() > 0
            &&& all.last().type_t == Types::EOF
            &&& all.last().lexeme.len() == 0
            &&& all.last().literal == LiteralView::Nil
            &&& forall|i: int| 0 <= i < all.len() - 1 ==> scans_alone(#[trigger] all[i])
        }),
    decreases src.len() - pos,
{
    if pos < 0 || pos >= src.len() {
        reveal_strlit("");
        let all = scan_spec(src, pos, line, tokens, errors).tokens;
        assert forall|i: int| 0 <= i < all.len() - 1 implies scans_alone(#[trigger] all[i]) by {
            assert(all[i] == tokens[i]);
        }
    } else {
        let step = lex_spec(src, pos, line);
        lemma_lex_advances(src, pos, line);
        let more = push_some(tokens, step.token);
        if step.token is Some {
            let token = step.token->Some_0;
            law_lexeme_scans_as_its_token(src, pos, line);
            assert(token.lexeme == src.subrange(pos, step.next));
            assert forall|other: usize| #[trigger] alone_at(token, other) by {
                lemma_lex_any_line(token.lexeme, 0, line, other);
            }
            assert(scans_alone(token));
        }
        assert forall|i: int| 0 <= i < more.len() implies scans_alone(#[trigger] more[i]) by {
            if i < tokens.len() {
                assert(more[i] == tokens[i]);
            }
        }
        lemma_scanned_tokens_scan_alone(
            src,
            step.next,
            step.line,
            more,
            push_some(errors, step.error),
        );
    }
}

/// The tokens whose texts scan alone, each with a space behind it, scan as
/// themselves, in order, whatever the lines; and no diagnostic is added.
proof fn lemma_spaced_scans(
    text: Seq<char>,
    p: int,
    ls: Seq<TokenView>,
    line: usize,
    tokens: Seq<TokenView>,
    errors: Seq<LuxErrorView>,
)
    requires
        0 <= p <= text.len(),
        text.subrange(p, text.len() as int) == spaced(ls),
        forall|i: int| 0 <= i < ls.len() ==> scans_alone(#[trigger] ls[i]),
    ensures
        ({
            let again = scan_spec(text, p, line, tokens, errors);
            &&& again.errors == errors
            &&& again.tokens.len() == tokens.len() + ls.len() + 1
            &&& forall|i: int| 0 <= i < tokens.len() ==> #[trigger] again.tokens[i] == tokens[i]
            &&& forall|i: int|
                0 <= i < ls.len() ==> same_but_line(
                    #[trigger] again.tokens[tokens.len() + i],
                    ls[i],
                )
            &&& again.tokens.last().type_t == Types::EOF
            &&& again.tokens.last().lexeme.len() == 0
            &&& again.tokens.last().literal == LiteralView::Nil
        }),
    decreases ls.len(),
{
    let tail = text.subrange(p, text.len() as int);
    if ls.len() == 0 {
        reveal_strlit("");
        assert(tail.len() == 0);
    } else {
        let first = ls[0];
        let piece = first.lexeme;
        let n = piece.len() as int;
        let rest = ls.drop_first();
        assert(alone_at(first, line));
        let alone = lex_spec(piece, 0, line);
        let token = alone.token->Some_0;
        assert(tail.len() == n + 1 + spaced(rest).len());
        assert forall|i: int| 0 <= i < n implies text[p + i] == piece[i] by {
            assert(tail[i] == piece[i]);
        }
        assert(text[p + n] == ' ') by {
            assert(tail[n] == ' ');
        }
        lemma_lexeme_scans_before_a_space(piece, text, p, line);
        let more = tokens.push(token);
        assert(scan_spec(text, p, line, tokens, errors) == scan_spec(
            text,
            p + n,
            alone.line,
            more,
            errors,
        ));
        assert(scan_spec(text, p + n, alone.line, more, errors) == scan_spec(
            text,
            p + n + 1,
            alone.line,
            more,
            errors,
        ));
        assert(text.subrange(p + n + 1, text.len() as int) =~= spaced(rest)) by {
            assert(tail.subrange(n + 1, tail.len() as int) =~= spaced(rest));
        }
        assert forall|i: int| 0 <= i < rest.len() implies scans_alone(#[trigger] rest[i]) by {
            assert(rest[i] == ls[i + 1]);
        }
        lemma_spaced_scans(text, p + n + 1, rest, alone.line, more, errors);
        let again = scan_spec(text, p, line, tokens, errors);
        assert forall|i: int| 0 <= i < tokens.len() implies #[trigger] again.tokens[i]
            == tokens[i] by {
            assert(more[i] == tokens[i]);
        }
        assert forall|i: int| 0 <= i < ls.len() implies same_but_line(
            #[trigger] again.tokens[tokens.len() + i],
            ls[i],
        ) by {
            if i == 0 {
                assert(again.tokens[tokens.len() as int] == more[tokens.len() as int]);
            } else {
                assert(rest[i - 1] == ls[i]);
                assert(again.tokens[more.len() + (i - 1)] == again.tokens[tokens.len() + i]);
            }
        }
    }
}

/// The tokens of a source, written out with one space between each two and
/// scanned again, give the same tokens: as many, without a diagnostic, and at
/// each place a token of the same kind, text and value. Only the lines may
/// differ.
pub proof fn law_tokens_scan_as_themselves(source: Seq<char>)
    ensures
        ({
            let tokens = scan_source(source).tokens;
            let again = scan_source(joined(lexemes(tokens)));
            &&& again.errors.len() == 0
            &&& again.tokens.len() == tokens.len()
            &&& forall|i: int|
                0 <= i < tokens.len() ==> same_but_line(#[trigger] again.tokens[i], tokens[i])
        }),
{
    let tokens = scan_source(source).tokens;
    lemma_scanned_tokens_scan_alone(source, 0, 1, Seq::empty(), Seq::empty());
    lemma_joined_is_spaced(tokens);
    let text = joined(lexemes(tokens));
    let ls = tokens.drop_last();
    assert(text.subrange(0, text.len() as int) =~= text);
    assert forall|i: int| 0 <= i < ls.len() implies scans_alone(#[trigger] ls[i]) by {
        assert(ls[i] == tokens[i]);
    }
    lemma_spaced_scans(text, 0, ls, 1, Seq::empty(), Seq::empty());
    let again = scan_source(text);
    assert forall|i: int| 0 <= i < tokens.len() implies same_but_line(
        #[trigger] again.tokens[i],
        tokens[i],
    ) by {
        if i < ls.len() {
            let none = Seq::<TokenView>::empty();
            assert(same_but_line(again.tokens[none.len() + i], ls[i]));
            assert(ls[i] == tokens[i]);
        } else {
            assert(again.tokens[i] == again.tokens.last());
            assert(tokens[i] == tokens.last());
            assert(again.tokens[i].lexeme =~= tokens[i].lexeme);
        }
    }
}

} // verus!
