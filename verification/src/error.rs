use crate::text::{decimal, decimal_text};
use crate::token::{Token, TokenView};
use crate::token_type::Types;
use vstd::prelude::*;
use vstd::string::StringExecFns;

verus! {

/// A diagnostic of the scanner, the parser or the resolver.
#[derive(Debug)]
pub struct LuxError {
    pub message: String,
    pub line: usize,
    pub location: String,
}

/// What a `LuxError` stands for.
pub struct LuxErrorView {
    pub message: Seq<char>,
    pub line: usize,
    pub location: Seq<char>,
}

/// Where a diagnostic points: the end of the input, or the token's text
/// between quotes.
pub open spec fn location_text(token: TokenView) -> Seq<char> {
    if token.type_t == Types::EOF {
        "at end"@
    } else {
        "at '"@ + token.lexeme + "'"@
    }
}

/// The diagnostic that `message` gives at `token`.
pub open spec fn error_at(token: TokenView, message: Seq<char>) -> LuxErrorView {
    LuxErrorView { message, line: token.line, location: location_text(token) }
}

/// The printed form of a diagnostic.
pub open spec fn error_text(error: LuxErrorView) -> Seq<char> {
    "line "@ + decimal_text(error.line as nat) + " Error "@ + error.location + ": "@
        + error.message
}

impl LuxError {
    /// What the diagnostic stands for.
    pub open spec fn view(&self) -> LuxErrorView {
        LuxErrorView { message: self.message@, line: self.line, location: self.location@ }
    }

    /// The diagnostic with the given parts.
    pub fn report(line: usize, location: &str, message: &str) -> (error: LuxError)
        ensures
            error@ == (LuxErrorView { message: message@, line, location: location@ }),
    {
        LuxError { line, location: location.to_string(), message: message.to_string() }
    }

    /// The diagnostic that `message` gives at `token`.
    pub fn new(token: &Token, message: &str) -> (error: LuxError)
        ensures
            error@ == error_at(token@, message@),
    {
        if token.type_t == Types::EOF {
            Self::report(token.line, "at end", message)
        } else {
            let mut location = "at '".to_string();
            location.append(token.lexeme.as_str());
            location.append("'");
            Self::report(token.line, location.as_str(), message)
        }
    }

    /// The printed form: the line, the location and the message.
    pub fn to_string(&self) -> (text: String)
        ensures
            text@ == error_text(self@),
    {
        let mut text = "line ".to_string();
        text.append(decimal(self.line).as_str());
        text.append(" Error ");
        text.append(self.location.as_str());
        text.append(": ");
        text.append(self.message.as_str());
        text
    }
}

impl Clone for LuxError {
    fn clone(&self) -> (r: LuxError)
        ensures
            r@ == self@,
    {
        LuxError {
            message: self.message.clone(),
            line: self.line,
            location: self.location.clone(),
        }
    }
}

/// The views of a list of diagnostics, in order.
pub open spec fn errors_view(errors: &Vec<LuxError>) -> Seq<LuxErrorView> {
    Seq::new(errors.len() as nat, |i: int| errors[i]@)
}

/// Appends a diagnostic to a list.
pub fn push_error(errors: &mut Vec<LuxError>, error: LuxError)
    ensures
        errors_view(final(errors)) == errors_view(old(errors)).push(error@),
{
    errors.push(error);
    assert(errors_view(errors) =~= errors_view(old(errors)).push(error@));
}

} // verus!
