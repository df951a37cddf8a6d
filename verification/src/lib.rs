pub mod clock;
pub mod dict;
pub mod environment;
pub mod error;
pub mod expr;
pub mod function;
pub mod gen_script;
pub mod interpreter;
pub mod laws;
pub mod literal;
pub mod lux;
pub mod maps;
pub mod number;
pub mod oracle;
pub mod parser;
pub mod positions;
pub mod rescan;
pub mod resolver;
pub mod runtime_error;
pub mod scanner;
pub mod stmt;
pub mod text;
pub mod token;
pub mod token_type;
