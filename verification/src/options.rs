//! What a caller may choose about the text.
use vstd::prelude::*;
use crate::indent::INDENT_WIDTH;

verus! {

/// The choices open to a caller.
#[derive(Clone, Copy, Debug, PartialEq, Eq)]
pub struct FormatOptions {
    /// Spaces per level of indentation.
    pub indent_width: usize,
}

impl Default for FormatOptions {
    /// Four spaces per level.
    fn default() -> (options: FormatOptions)
        ensures
            options.indent_width == INDENT_WIDTH,
    {
        FormatOptions { indent_width: INDENT_WIDTH }
    }
}

} // verus!
