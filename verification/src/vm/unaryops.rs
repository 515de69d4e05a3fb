//! The operators on one number.

use vstd::prelude::*;

use crate::error::{Error, ErrorView};
use crate::numeric::float::FloatUnit;
use crate::numeric::ops_defs::NegOp;
use crate::types::num::{num_monadic, num_monadic_law, Num, NumView};
use crate::vm::frame::{views, Frame, FrameView};
use crate::vm::optypes::UnaryOp;

verus! {

pub const NEG: UnaryOp = UnaryOp::Neg;

pub const COS: UnaryOp = UnaryOp::Cos;

impl UnaryOp {
    /// The word that the built-in dictionary binds to the operator.
    pub open spec fn word(self) -> Seq<char> {
        match self {
            UnaryOp::Neg => "neg"@,
            UnaryOp::Cos => "cos"@,
        }
    }

    /// The word that the built-in dictionary binds to the operator.
    pub fn name(&self) -> (out: &'static str)
        ensures
            out@ == self.word(),
    {
        match self {
            UnaryOp::Neg => "neg",
            UnaryOp::Cos => "cos",
        }
    }

    /// Whether `out` is a result of the operator on `val`: it has the kind
    /// and cardinality of `val` and is `NaN` wherever `val` is, and the
    /// negative of an integer is exact.
    pub open spec fn admits(self, val: NumView, out: NumView) -> bool {
        &&& num_monadic_law(val, out)
        &&& self == UnaryOp::Neg && !(val is Float) ==> out == num_monadic::<NegOp>(val)
    }

    /// The operator on a number.
    pub fn apply<F: FloatUnit>(&self, num: Num, unit: &F) -> (out: Result<Num, Error>)
        ensures
            out is Ok,
            self.admits(num@, out->Ok_0@),
    {
        match self {
            UnaryOp::Neg => num.neg(unit),
            UnaryOp::Cos => num.cos(unit),
        }
    }

    /// Whether the operand stack `after` and the answer `out` are what the
    /// operator makes of the operand stack `before`: `StackUnderflow` on an
    /// empty stack, `OpType` if the top is no number, and else the result in
    /// place of the top. On failure the stack is as it was.
    pub open spec fn effect(
        self,
        before: Seq<FrameView>,
        after: Seq<FrameView>,
        out: Option<ErrorView>,
    ) -> bool {
        if before.len() < 1 {
            out == Some(ErrorView::StackUnderflow) && after == before
        } else if !(before.last() is Num) {
            out == Some(ErrorView::OpType) && after == before
        } else {
            &&& out is None
            &&& after.len() == before.len()
            &&& after.drop_last() == before.drop_last()
            &&& after.last() is Num
            &&& self.admits(before.last()->Num_0, after.last()->Num_0)
        }
    }

    /// Runs the operator on the top of the operand stack.
    pub fn exec<F: FloatUnit>(&self, op_stack: &mut Vec<Frame>, unit: &F) -> (out: Option<Error>)
        ensures
            self.effect(
                views(old(op_stack)@),
                views(final(op_stack)@),
                match out {
                    Some(error) => Some(error@),
                    None => None,
                },
            ),
    {
        let len = op_stack.len();
        if len < 1 {
            return Some(Error::StackUnderflow);
        }
        let is_num = match &op_stack[len - 1] {
            Frame::Num(_) => true,
            _ => false,
        };
        if !is_num {
            return Some(Error::OpType);
        }
        let ghost before = op_stack@;
        let num = match op_stack.pop() {
            Some(Frame::Num(num)) => num,
            _ => vstd::pervasive::unreached(),
        };
        match self.apply(num, unit) {
            Ok(r) => {
                op_stack.push(Frame::Num(r));
                assert(views(op_stack@).drop_last() =~= views(before).drop_last());
                None
            },
            Err(error) => vstd::pervasive::unreached(),
        }
    }
}

} // verus!
