//! The operators on the engine itself: they bind names, intern strings,
//! schedule frames, and make lists in the current savebox.

use vstd::prelude::*;

use crate::vm::optypes::VmOp;

verus! {

pub const NAME: VmOp = VmOp::Name;

pub const MKNAME: VmOp = VmOp::MkName;

pub const MKLIST: VmOp = VmOp::MkList;

pub const MKPROC: VmOp = VmOp::MkProc;

pub const LIST: VmOp = VmOp::List;

pub const EXEC: VmOp = VmOp::Exec;

pub const VMSTATUS: VmOp = VmOp::VmStatus;

} // verus!
