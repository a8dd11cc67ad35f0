//! Comments: how the text of one comment is laid out.
use crate::text::{trim_end, trim_end_of};
use vstd::prelude::*;

verus! {

/// A comment as it is written out: its source without trailing white space.
pub open spec fn comment_line(raw: Seq<char>) -> Seq<char> {
    trim_end(raw)
}

/// Lays out the text of one comment.
pub fn comment_line_of(raw: &Vec<char>) -> (out: Vec<char>)
    ensures
        out@ == comment_line(raw@),
{
    trim_end_of(raw)
}

} // verus!
