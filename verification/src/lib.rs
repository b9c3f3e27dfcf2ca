//! Passes over a parsed document tree.
//!
//! - [`toc`]: the outline of the headings, nested by level and placed in
//!   front of the first heading.
//! - [`footnote`]: footnotes, whose references are scanned, numbered and
//!   linked, and whose adjacent definitions are grouped into lists.
//! - [`latex`]: formulas between dollar signs and their MathML.
//! - [`node`] and [`markup`]: the tree that the passes rewrite and the calls
//!   that nodes render to.
//! - [`text`]: slugs and decimal numerals.
//! - [`testing`]: fixtures that pair a document with the expected markup.

pub mod footnote;
pub mod latex;
pub mod markup;
pub mod node;
pub mod testing;
pub mod text;
pub mod toc;
