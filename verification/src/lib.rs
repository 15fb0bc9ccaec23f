//! A parser for shell programs over character sequences, with the character-level
//! scanners, the word and command grammar, and the compound commands of the shell
//! language, each stated as a function of its input and proved against that statement.

pub mod chars;
pub mod char_parsers;
pub mod ast;
pub mod line_parsers;
pub mod word_parsers;
pub mod command_parsers;
pub mod arith;
pub mod extended_test_parsers;
pub mod grammar;
pub mod and_or_parsers;
pub mod compound_parsers;
pub mod control_flow_parsers;
pub mod function_parsers;
pub mod program_parsers;
pub mod users;
pub mod context;
pub mod laws;
pub mod grammar_laws;
