//! A strict recursive-descent parser for a small tag/attribute/text markup
//! language, producing an owned tree of nodes.
pub mod cursor;
pub mod attrs;
pub mod tree;
pub mod grammar;
pub mod parser;
pub mod laws;
