//! The operators on the whole operand stack: `clear` empties it, `show`
//! prints it from the top down, and `peek` prints its top.

use vstd::prelude::*;

use crate::vm::optypes::StackOp;

verus! {

pub const CLEAR: StackOp = StackOp::Clear;

pub const SHOW: StackOp = StackOp::Show;

pub const PEEK: StackOp = StackOp::Peek;

} // verus!
