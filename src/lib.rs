pub mod text;
pub mod decorator;
pub mod lexer;
pub mod ast;
pub mod error;
pub mod scope;
pub mod semantic;
pub mod codegen;
pub mod grammar;
pub mod parser;
