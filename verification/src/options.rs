//! Layout options.
use vstd::prelude::*;

verus! {

/// What the layout is measured against: the preferred width of a line, in
/// bytes, and the number of spaces that one level of nesting indents by.
#[derive(Clone, Copy, Debug, PartialEq, Eq, Structural)]
pub struct OptionData {
    pub row_length: usize,
    pub indent_space: usize,
}

/// The options in force where none are given: lines of 80 bytes, levels of 4
/// spaces.
pub open spec fn default_options() -> OptionData {
    OptionData { row_length: 80, indent_space: 4 }
}

impl OptionData {
    /// Options with the given line width and indentation step.
    pub fn new(row_length: usize, indent_space: usize) -> (options: OptionData)
        ensures
            options == (OptionData { row_length, indent_space }),
    {
        OptionData { row_length, indent_space }
    }
}

impl Default for OptionData {
    fn default() -> (options: OptionData)
        ensures
            options == default_options(),
    {
        OptionData { row_length: 80, indent_space: 4 }
    }
}

} // verus!
