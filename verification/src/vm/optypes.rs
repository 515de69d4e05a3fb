//! The operators, by shape. An operator is a small value: its shape says how
//! it meets the operand stack, its name is the word that the built-in
//! dictionary binds to it, and its arity is the number of operands it takes.

use vstd::prelude::*;

verus! {

/// Takes one number and leaves one.
#[derive(Debug, Clone, Copy, PartialEq, Eq, Structural)]
pub enum UnaryOp {
    Neg,
    Cos,
}

/// Takes two numbers, the left one deeper, and leaves one.
#[derive(Debug, Clone, Copy, PartialEq, Eq, Structural)]
pub enum BinaryOp {
    Add,
    Sub,
    Mul,
    Div,
}

/// Takes a fixed number of frames and leaves what it makes of them.
#[derive(Debug, Clone, Copy, PartialEq, Eq, Structural)]
pub enum NaryOp {
    Pop,
    Dup,
    Exch,
    Get,
    Put,
    Length,
    GetInterval,
    Quit,
    MkStr,
    MkPass,
    MkAct,
}

/// Sees the whole operand stack.
#[derive(Debug, Clone, Copy, PartialEq, Eq, Structural)]
pub enum StackOp {
    Clear,
    Show,
    Peek,
}

/// Takes a fixed number of frames and works on the engine itself.
#[derive(Debug, Clone, Copy, PartialEq, Eq, Structural)]
pub enum VmOp {
    Name,
    MkName,
    Exec,
    MkList,
    MkProc,
    List,
    VmStatus,
}

impl StackOp {
    /// The word that the built-in dictionary binds to the operator.
    pub open spec fn word(self) -> Seq<char> {
        match self {
            StackOp::Clear => "clear"@,
            StackOp::Show => "show"@,
            StackOp::Peek => "peek"@,
        }
    }

    /// The word that the built-in dictionary binds to the operator.
    pub fn name(&self) -> (out: &'static str)
        ensures
            out@ == self.word(),
    {
        match self {
            StackOp::Clear => "clear",
            StackOp::Show => "show",
            StackOp::Peek => "peek",
        }
    }
}

impl VmOp {
    /// The word that the built-in dictionary binds to the operator.
    pub open spec fn word(self) -> Seq<char> {
        match self {
            VmOp::Name => "name"@,
            VmOp::MkName => "mkname"@,
            VmOp::Exec => "exec"@,
            VmOp::MkList => "mklist"@,
            VmOp::MkProc => "mkproc"@,
            VmOp::List => "list"@,
            VmOp::VmStatus => "vmstats"@,
        }
    }

    /// The word that the built-in dictionary binds to the operator.
    pub fn name(&self) -> (out: &'static str)
        ensures
            out@ == self.word(),
    {
        match self {
            VmOp::Name => "name",
            VmOp::MkName => "mkname",
            VmOp::Exec => "exec",
            VmOp::MkList => "mklist",
            VmOp::MkProc => "mkproc",
            VmOp::List => "list",
            VmOp::VmStatus => "vmstats",
        }
    }

    /// The number of frames that the operator takes off the operand stack
    /// before it runs.
    pub open spec fn arity(self) -> nat {
        match self {
            VmOp::Name => 2,
            VmOp::MkName => 1,
            VmOp::Exec => 1,
            VmOp::MkList => 0,
            VmOp::MkProc => 0,
            VmOp::List => 1,
            VmOp::VmStatus => 0,
        }
    }

    /// The number of frames that the operator takes off the operand stack
    /// before it runs.
    pub fn n(&self) -> (out: usize)
        ensures
            out == self.arity(),
    {
        match self {
            VmOp::Name => 2,
            VmOp::MkName => 1,
            VmOp::Exec => 1,
            VmOp::MkList => 0,
            VmOp::MkProc => 0,
            VmOp::List => 1,
            VmOp::VmStatus => 0,
        }
    }
}

} // verus!
