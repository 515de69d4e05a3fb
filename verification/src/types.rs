//! The operand types: numbers, names, lists, dictionaries and the saveboxes
//! that own what lists and dictionaries refer to.

pub mod dict;
pub mod list;
pub mod name;
pub mod num;
pub mod savable;
pub mod save;
