//! The ways in which formatting can fail.
use vstd::prelude::*;

verus! {

/// Why no text was produced.
#[derive(Clone, Copy, Debug, PartialEq, Eq, Structural)]
pub enum FormatError {
    /// The input text is not a syntactically valid block. The formatter itself
    /// never reports this: it is for the parser that builds the tree.
    ParseFailure,
    /// The tree holds an attribute whose name is itself an expression, which
    /// the formatter cannot render.
    UnsupportedConstruct,
    /// The output could not be written: the tree is nested more deeply than the
    /// machine can count.
    WriteFailure,
}

} // verus!
