use crate::literal::{Literal, LiteralView};
use crate::token_type::Types;
use vstd::prelude::*;

verus! {

/// The smallest lexical unit: a kind, the source text it was read from, the
/// value of a literal, and the line it stands on.
#[derive(Debug)]
pub struct Token {
    pub type_t: Types,
    pub lexeme: String,
    pub literal: Literal,
    pub line: usize,
}

/// What a `Token` stands for.
pub struct TokenView {
    pub type_t: Types,
    pub lexeme: Seq<char>,
    pub literal: LiteralView,
    pub line: usize,
}

impl Token {
    /// What the token stands for.
    pub open spec fn view(&self) -> TokenView
        decreases self,
    {
        TokenView {
            type_t: self.type_t,
            lexeme: self.lexeme@,
            literal: self.literal.view(),
            line: self.line,
        }
    }

    /// The token with the given parts.
    pub fn new(type_t: Types, lexeme: String, literal: Literal, line: usize) -> (token: Token)
        ensures
            token == (Token { type_t, lexeme, literal, line }),
    {
        Token { type_t, lexeme, literal, line }
    }
}

impl Clone for Token {
    fn clone(&self) -> (r: Token)
        ensures
            r@ == self@,
    {
        Token {
            type_t: self.type_t,
            lexeme: self.lexeme.clone(),
            literal: self.literal.clone(),
            line: self.line,
        }
    }
}

/// The views of a list of tokens, in order.
pub open spec fn tokens_view(tokens: &Vec<Token>) -> Seq<TokenView>
    decreases tokens,
{
    Seq::new(
        tokens.len() as nat,
        |i: int|
            if 0 <= i < tokens.len() {
                tokens[i].view()
            } else {
                arbitrary()
            },
    )
}

} // verus!
