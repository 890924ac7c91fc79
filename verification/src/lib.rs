//! A pretty-printer for a markup-style syntax tree.
//!
//! The tree ([`tree::Node`]) describes elements, components, text and embedded
//! expressions. [`writer::write_ident`] appends the canonical, stably indented
//! text of one node to a buffer; [`writer::format`] renders a sequence of roots.
//! What the text is, for every tree, is said once in [`render`], as functions
//! on sequences of characters; the writers are proved to produce exactly that.
pub mod error;
pub mod indent;
pub mod laws;
pub mod layout;
pub mod options;
pub mod render;
pub mod text;
pub mod tree;
pub mod writer;

pub use crate::error::FormatError;
pub use crate::indent::write_tabs;
pub use crate::options::FormatOptions;
pub use crate::tree::{Attribute, Expression, Field, FieldContent, Node};
pub use crate::writer::{fmt_block, write_ident};
