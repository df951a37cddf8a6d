use crate::literal::display_text;
use crate::text::{decimal, decimal_text};
use crate::token::{Token, TokenView};
use vstd::prelude::*;
use vstd::string::StringExecFns;

verus! {

/// An error raised while a program runs, with the token it is reported at.
#[derive(Debug)]
pub struct RuntimeError {
    pub token: Token,
    pub message: String,
}

/// What a `RuntimeError` stands for.
pub struct RuntimeErrorView {
    pub token: TokenView,
    pub message: Seq<char>,
}

/// The printed form of a token.
pub open spec fn token_text(token: TokenView) -> Seq<char> {
    "Line: "@ + decimal_text(token.line as nat) + ", Lexeme: "@ + token.lexeme + ", Literal: "@
        + display_text(token.literal) + ", Type: "@ + token.type_t.name_text()
}

/// The printed form of a runtime error: the token, the message, and the line
/// on a line of its own.
pub open spec fn runtime_error_text(error: RuntimeErrorView) -> Seq<char> {
    token_text(error.token) + " "@ + error.message + " \n [line "@ + decimal_text(
        error.token.line as nat,
    ) + "]"@
}

impl Token {
    /// The printed form of the token.
    pub fn to_string(&self) -> (text: String)
        ensures
            text@ == token_text(self@),
    {
        let mut text = "Line: ".to_string();
        text.append(decimal(self.line).as_str());
        text.append(", Lexeme: ");
        text.append(self.lexeme.as_str());
        text.append(", Literal: ");
        text.append(self.literal.to_str().as_str());
        text.append(", Type: ");
        text.append(self.type_t.name());
        text
    }
}

impl RuntimeError {
    /// What the error stands for.
    pub open spec fn view(&self) -> RuntimeErrorView {
        RuntimeErrorView { token: self.token@, message: self.message@ }
    }

    /// The error with `message`, reported at `token`.
    pub fn new(token: Token, message: String) -> (error: RuntimeError)
        ensures
            error == (RuntimeError { token, message }),
    {
        RuntimeError { token, message }
    }

    /// The printed form of the error.
    pub fn to_string(&self) -> (text: String)
        ensures
            text@ == runtime_error_text(self@),
    {
        let mut text = self.token.to_string();
        text.append(" ");
        text.append(self.message.as_str());
        text.append(" \n [line ");
        text.append(decimal(self.token.line).as_str());
        text.append("]");
        text
    }
}

} // verus!
