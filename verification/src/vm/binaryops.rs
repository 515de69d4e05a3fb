//! The operators on two numbers.

use vstd::prelude::*;

use crate::error::{Error, ErrorView};
use crate::numeric::float::FloatUnit;
use crate::numeric::ops_defs::{AddOp, DivOp, MulOp, SubOp};
use crate::types::num::{num_dyadic, num_dyadic_law, num_mismatched, Num, NumView};
use crate::vm::frame::{views, Frame, FrameView};
use crate::vm::optypes::BinaryOp;

verus! {

pub const ADD: BinaryOp = BinaryOp::Add;

pub const SUB: BinaryOp = BinaryOp::Sub;

pub const MUL: BinaryOp = BinaryOp::Mul;

pub const DIV: BinaryOp = BinaryOp::Div;

impl BinaryOp {
    /// The word that the built-in dictionary binds to the operator.
    pub open spec fn word(self) -> Seq<char> {
        match self {
            BinaryOp::Add => "add"@,
            BinaryOp::Sub => "sub"@,
            BinaryOp::Mul => "mul"@,
            BinaryOp::Div => "div"@,
        }
    }

    /// The word that the built-in dictionary binds to the operator.
    pub fn name(&self) -> (out: &'static str)
        ensures
            out@ == self.word(),
    {
        match self {
            BinaryOp::Add => "add",
            BinaryOp::Sub => "sub",
            BinaryOp::Mul => "mul",
            BinaryOp::Div => "div",
        }
    }

    /// The result of the operator on two numbers of integer kinds that it
    /// does not refuse.
    pub open spec fn exact(self, lhs: NumView, rhs: NumView) -> NumView {
        match self {
            BinaryOp::Add => num_dyadic::<AddOp>(lhs, rhs),
            BinaryOp::Sub => num_dyadic::<SubOp>(lhs, rhs),
            BinaryOp::Mul => num_dyadic::<MulOp>(lhs, rhs),
            BinaryOp::Div => num_dyadic::<DivOp>(lhs, rhs),
        }
    }

    /// Whether `out` is a result of the operator on `lhs` and `rhs`: it has
    /// the kind of `lhs` and the cardinality that the cardinality law gives,
    /// it is `NaN` wherever an operand that went into it is, and where no
    /// operand is a float it is exact.
    pub open spec fn admits(self, lhs: NumView, rhs: NumView, out: NumView) -> bool {
        &&& num_dyadic_law(lhs, rhs, out)
        &&& !(lhs is Float) && !(rhs is Float) ==> out == self.exact(lhs, rhs)
    }

    /// The operator on two numbers; `LengthMismatch` for two arrays of
    /// different lengths.
    pub fn apply<F: FloatUnit>(&self, lhs: Num, rhs: Num, unit: &F) -> (out: Result<Num, Error>)
        ensures
            match out {
                Ok(number) => !num_mismatched(lhs@, rhs@) && self.admits(lhs@, rhs@, number@),
                Err(error) => error == Error::LengthMismatch && num_mismatched(lhs@, rhs@),
            },
    {
        match self {
            BinaryOp::Add => lhs.add(rhs, unit),
            BinaryOp::Sub => lhs.sub(rhs, unit),
            BinaryOp::Mul => lhs.mul(rhs, unit),
            BinaryOp::Div => lhs.div(rhs, unit),
        }
    }

    /// Whether the operand stack `after` and the answer `out` are what the
    /// operator makes of the operand stack `before`: `StackUnderflow` if it
    /// holds fewer than two frames, `OpType` unless the two on top are
    /// numbers, `LengthMismatch` for two arrays of different lengths, and
    /// else the result in place of the two, of which the deeper is the left
    /// operand. On failure the stack is as it was.
    pub open spec fn effect(
        self,
        before: Seq<FrameView>,
        after: Seq<FrameView>,
        out: Option<ErrorView>,
    ) -> bool {
        if before.len() < 2 {
            out == Some(ErrorView::StackUnderflow) && after == before
        } else if !(before[before.len() - 2] is Num && before[before.len() - 1] is Num) {
            out == Some(ErrorView::OpType) && after == before
        } else if num_mismatched(
            before[before.len() - 2]->Num_0,
            before[before.len() - 1]->Num_0,
        ) {
            out == Some(ErrorView::LengthMismatch) && after == before
        } else {
            &&& out is None
            &&& after.len() == before.len() - 1
            &&& after.drop_last() == before.take(before.len() - 2)
            &&& after.last() is Num
            &&& self.admits(
                before[before.len() - 2]->Num_0,
                before[before.len() - 1]->Num_0,
                after.last()->Num_0,
            )
        }
    }

    /// Runs the operator on the two frames on top of the operand stack.
    pub fn exec<F: FloatUnit>(&self, op_stack: &mut Vec<Frame>, unit: &F) -> (out: Option<Error>)
        ensures
            self.effect(
                views(old(op_stack)@),
                views(final(op_stack)@),
                match out {
                    Some(error) => Some(error@),
                    None => None,
                },
            ),
    {
        let len = op_stack.len();
        if len < 2 {
            return Some(Error::StackUnderflow);
        }
        let fit = match (&op_stack[len - 2], &op_stack[len - 1]) {
            (Frame::Num(lhs), Frame::Num(rhs)) => match (lhs.cardinality(), rhs.cardinality()) {
                (Some(l), Some(r)) => if l == r {
                    None
                } else {
                    Some(Error::LengthMismatch)
                },
                _ => None,
            },
            _ => Some(Error::OpType),
        };
        if fit.is_some() {
            return fit;
        }
        let ghost before = op_stack@;
        let rhs = match op_stack.pop() {
            Some(Frame::Num(num)) => num,
            _ => vstd::pervasive::unreached(),
        };
        let lhs = match op_stack.pop() {
            Some(Frame::Num(num)) => num,
            _ => vstd::pervasive::unreached(),
        };
        match self.apply(lhs, rhs, unit) {
            Ok(r) => {
                op_stack.push(Frame::Num(r));
                assert(views(op_stack@).drop_last() =~= views(before).take(before.len() - 2));
                None
            },
            Err(error) => vstd::pervasive::unreached(),
        }
    }
}

} // verus!
