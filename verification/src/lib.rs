//! An interactive command-grammar engine: a tokenizer, a grammar tree of
//! commands and parameters, a parser that walks the tree token by token, and
//! completion of partially typed input.

pub mod command_table;
pub mod menu_definition;
pub mod parser;
pub mod tokenizer;
pub mod util;
