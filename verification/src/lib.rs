//! Canonical text rendering of query documents.
//!
//! A document is a tree of operations, selection sets, fields, arguments,
//! values and fragments. Rendering turns it into indented text, one way
//! only: the text is a function of the tree and of the indent width.
//!
//! - [`ast`] holds the tree.
//! - [`writer`] holds the block writer, which keeps braces and indentation
//!   balanced.
//! - [`render`] holds the rule of each kind of node, as a text and as the
//!   writer calls that produce it, and the entry points `Document::format`
//!   and `Document::to_string`.
//! - [`literal`] holds the text of integers and of quoted strings.
//! - [`join`] and [`lines`] hold what is true of concatenated texts and of
//!   their lines.
//! - [`order`] and [`layout`] state what holds of every rendering: items
//!   keep their order, and every line is indented by its depth.

pub mod ast;
pub mod join;
pub mod layout;
pub mod lines;
pub mod literal;
pub mod order;
pub mod render;
pub mod writer;
