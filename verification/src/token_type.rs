use vstd::prelude::*;

verus! {

/// The closed set of token kinds of the language.
#[allow(non_camel_case_types)]
#[derive(Clone, Copy, Debug, PartialEq, Eq, Hash, Structural)]
pub enum Types {
    LEFT_PAREN,
    RIGHT_PAREN,
    LEFT_BRACE,
    RIGHT_BRACE,
    COMMA,
    DOT,
    MINUS,
    PLUS,
    SEMICOLON,
    SLASH,
    STAR,
    BANG,
    BANG_EQUAL,
    EQUAL,
    EQUAL_EQUAL,
    GREATER,
    GREATER_EQUAL,
    LESS,
    LESS_EQUAL,
    IDENTIFIER,
    STRING,
    NUMBER,
    AND,
    CLASS,
    ELSE,
    FALSE,
    FUN,
    FOR,
    IF,
    NIL,
    OR,
    PRINT,
    RETURN,
    SUPER,
    THIS,
    TRUE,
    VAR,
    WHILE,
    EOF,
}

impl Types {
    /// The name of the kind, as it is written in the enumeration.
    pub open spec fn name_text(self) -> Seq<char> {
        match self {
            Types::LEFT_PAREN => "LEFT_PAREN"@,
            Types::RIGHT_PAREN => "RIGHT_PAREN"@,
            Types::LEFT_BRACE => "LEFT_BRACE"@,
            Types::RIGHT_BRACE => "RIGHT_BRACE"@,
            Types::COMMA => "COMMA"@,
            Types::DOT => "DOT"@,
            Types::MINUS => "MINUS"@,
            Types::PLUS => "PLUS"@,
            Types::SEMICOLON => "SEMICOLON"@,
            Types::SLASH => "SLASH"@,
            Types::STAR => "STAR"@,
            Types::BANG => "BANG"@,
            Types::BANG_EQUAL => "BANG_EQUAL"@,
            Types::EQUAL => "EQUAL"@,
            Types::EQUAL_EQUAL => "EQUAL_EQUAL"@,
            Types::GREATER => "GREATER"@,
            Types::GREATER_EQUAL => "GREATER_EQUAL"@,
            Types::LESS => "LESS"@,
            Types::LESS_EQUAL => "LESS_EQUAL"@,
            Types::IDENTIFIER => "IDENTIFIER"@,
            Types::STRING => "STRING"@,
            Types::NUMBER => "NUMBER"@,
            Types::AND => "AND"@,
            Types::CLASS => "CLASS"@,
            Types::ELSE => "ELSE"@,
            Types::FALSE => "FALSE"@,
            Types::FUN => "FUN"@,
            Types::FOR => "FOR"@,
            Types::IF => "IF"@,
            Types::NIL => "NIL"@,
            Types::OR => "OR"@,
            Types::PRINT => "PRINT"@,
            Types::RETURN => "RETURN"@,
            Types::SUPER => "SUPER"@,
            Types::THIS => "THIS"@,
            Types::TRUE => "TRUE"@,
            Types::VAR => "VAR"@,
            Types::WHILE => "WHILE"@,
            Types::EOF => "EOF"@,
        }
    }

    /// The name of the kind.
    pub fn name(self) -> (text: &'static str)
        ensures
            text@ == self.name_text(),
    {
        match self {
            Types::LEFT_PAREN => "LEFT_PAREN",
            Types::RIGHT_PAREN => "RIGHT_PAREN",
            Types::LEFT_BRACE => "LEFT_BRACE",
            Types::RIGHT_BRACE => "RIGHT_BRACE",
            Types::COMMA => "COMMA",
            Types::DOT => "DOT",
            Types::MINUS => "MINUS",
            Types::PLUS => "PLUS",
            Types::SEMICOLON => "SEMICOLON",
            Types::SLASH => "SLASH",
            Types::STAR => "STAR",
            Types::BANG => "BANG",
            Types::BANG_EQUAL => "BANG_EQUAL",
            Types::EQUAL => "EQUAL",
            Types::EQUAL_EQUAL => "EQUAL_EQUAL",
            Types::GREATER => "GREATER",
            Types::GREATER_EQUAL => "GREATER_EQUAL",
            Types::LESS => "LESS",
            Types::LESS_EQUAL => "LESS_EQUAL",
            Types::IDENTIFIER => "IDENTIFIER",
            Types::STRING => "STRING",
            Types::NUMBER => "NUMBER",
            Types::AND => "AND",
            Types::CLASS => "CLASS",
            Types::ELSE => "ELSE",
            Types::FALSE => "FALSE",
            Types::FUN => "FUN",
            Types::FOR => "FOR",
            Types::IF => "IF",
            Types::NIL => "NIL",
            Types::OR => "OR",
            Types::PRINT => "PRINT",
            Types::RETURN => "RETURN",
            Types::SUPER => "SUPER",
            Types::THIS => "THIS",
            Types::TRUE => "TRUE",
            Types::VAR => "VAR",
            Types::WHILE => "WHILE",
            Types::EOF => "EOF",
        }
    }
}

} // verus!
