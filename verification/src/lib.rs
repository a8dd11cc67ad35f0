//! A formatter for SATySFi sources: the source is parsed into a syntax tree,
//! and the tree is written out again with normalised indentation and line
//! breaks.
//!
//! [`format`] runs the whole pipeline. Its steps are on offer one by one:
//! [`parse::parse_tree`] parses, [`attach::attach_comments`] puts the comments
//! back into the tree, [`document::render`] writes a tree out, and
//! [`document::format_tree`] does the last two and closes the output with one
//! line feed.
//!
//! Texts are specified as sequences of characters, trees as values of
//! [`tree::SyntaxTree`]. [`render::rendered`] says what the rendering of a
//! tree is; [`join`] and [`wrap`] hold the rules it is made of, one small
//! function per way of joining children and per form of a node. What holds
//! of every rendering is stated in [`laws`], [`preserve`] (literal content is
//! kept), [`nesting`] (delimiters come in pairs and nest) and [`order`] (a
//! comment stays with the statement it trails).
pub mod attach;
pub mod comment;
pub mod document;
pub mod indent;
pub mod join;
pub mod laws;
pub mod nesting;
pub mod options;
pub mod order;
pub mod parse;
pub mod preserve;
pub mod render;
pub mod source;
pub mod text;
pub mod tree;
pub mod unicode;
pub mod words;
pub mod wrap;

pub use crate::indent::indent_space;
pub use crate::options::OptionData;
pub use crate::parse::ParseError;

use crate::document::{document, ends_with_one_newline, format_tree};
use crate::options::default_options;
use crate::parse::{parse_outcome, parse_tree, tree_from};
use vstd::prelude::*;

verus! {

/// Formats a SATySFi source. It fails exactly where the grammar rejects the
/// input, with the place where parsing gave up, and then nothing is
/// formatted. Every other input yields the document of its syntax tree, laid
/// out with the default options; it ends with exactly one line feed.
pub fn format(input: &str) -> (res: Result<String, ParseError>)
    ensures
        match parse_outcome(input@) {
            Ok(nodes) => {
                &&& tree_from(nodes) matches Some(tree)
                &&& res matches Ok(out)
                &&& out@ == document(input@, tree, default_options())
                &&& ends_with_one_newline(out@)
            },
            Err(e) => res == Err::<String, ParseError>(e),
        },
{
    match parse_tree(input) {
        Ok(root) => Ok(format_tree(input, &root, &OptionData::default())),
        Err(e) => Err(e),
    }
}

} // verus!
