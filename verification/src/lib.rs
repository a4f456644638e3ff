//! A front end for the gmlpp scripting language: a lexer, a token cursor, a
//! recursive-descent parser and a printer that renders the tree as GML text.

pub mod ast;
pub mod chars;
pub mod compiler;
pub mod error;
pub mod project;
pub mod tokenizer;
