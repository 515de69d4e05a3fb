//! A small concatenative, stack-oriented language runtime in the PostScript
//! tradition: tagged numbers with scalar/array cardinality, interned names,
//! strings, marks, lists and dictionaries held in saveboxes, and a
//! fetch-decode-execute engine over an operand stack and an exec stack.
//!
//! The functions of the crate are verified, but for three that stand for
//! functions of the standard library and are believed as they are stated:
//! `push_char` (`String::push`) in [`text`], `share` (`Rc::clone`) and
//! `holders` (`Rc::strong_count`) in [`types::name`]. Floating-point
//! arithmetic is the one thing the crate asks of its host, through
//! [`numeric::float::FloatUnit`]; of what the host answers nothing is
//! claimed.

pub mod error;
pub mod numeric;
pub mod reader;
pub mod render;
pub mod term;
pub mod text;
pub mod types;
pub mod vm;
