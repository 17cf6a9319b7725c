//! A small verified HTML parse/serialize engine.
//!
//! Raw markup text is tokenized into [`Token`]s, the token stream is folded
//! into a tree of [`Node`]s, and a tree can be rendered back to markup text
//! through the [`Htmlifiable`] trait.  Every executable function is verified
//! against a mathematical model of the same pipeline, stated over sequences
//! of characters.

pub mod dom;
pub mod scan;
pub mod escape;
pub mod attrs;
pub mod token;
pub mod html;
pub mod tokenizer;
pub mod tree;
pub mod laws;

pub use dom::{Doctype, Element, Node};
pub use html::Htmlifiable;
pub use token::{ParseError, TagErrorReason, Token};
pub use tokenizer::tokenize;
pub use tree::{build_tree, parse};
