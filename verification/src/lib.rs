//! A formatter for CMake scripts: a parser from source text to a document
//! tree, and a printer from the tree to a width-aware layout.
pub mod parser;
pub mod pretty_printer;
pub mod writer;
