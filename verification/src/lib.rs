//! A TeX math front end: tokens, scoped macros, on-demand macro expansion and a
//! recursive-descent parser that turns a source string into a syntax tree.

use vstd::prelude::*;

pub mod build_common;
pub mod build_tree;
pub mod dom_tree;
pub mod expansion;
pub mod functions;
pub mod grammar;
pub mod gullet;
pub mod infix;
pub mod laws;
pub mod lexer;
pub mod ligatures;
pub mod macro_expander;
pub mod namespace;
pub mod options;
pub mod parse_error;
pub mod parse_node;
pub mod parse_tree;
pub mod parser;
pub mod progress;
pub mod settings;
pub mod source_location;
pub mod symbols;
pub mod text;
pub mod token;
pub mod utils;

verus! {

/// Adds two sizes.
pub fn add(left: usize, right: usize) -> (sum: usize)
    requires
        left + right <= usize::MAX,
    ensures
        sum == left + right,
{
    left + right
}

} // verus!
