//! What the engine knows of the memory of its process.

use vstd::prelude::*;

use crate::numeric::{Number, NumberView, NumericValue};
use crate::types::num::{Num, NumView};
use crate::vm::frame::{views, Frame, FrameView};

verus! {

/// The memory figures that the host last reported, in bytes: virtual and
/// resident. Both are `-1` while nothing has been reported.
#[derive(Debug, Clone, Copy, PartialEq, Eq, Structural)]
pub struct Vminfo {
    pub max: i64,
    pub used: i64,
}

impl Vminfo {
    pub fn new() -> (out: Self)
        ensures
            out == (Vminfo { max: -1i64, used: -1i64 }),
    {
        Vminfo { max: -1, used: -1 }
    }
}

/// What `vmstats` leaves: the virtual memory, and above it the resident
/// memory, as signed scalars.
pub fn vmstatus(info: &Vminfo) -> (out: Vec<Frame>)
    ensures
        out.len() == 2,
        views(out@) == seq![
            FrameView::Num(NumView::Int(NumberView::Scalar(NumericValue::Value(info.max)))),
            FrameView::Num(NumView::Int(NumberView::Scalar(NumericValue::Value(info.used)))),
        ],
{
    let mut out: Vec<Frame> = Vec::new();
    out.push(Frame::Num(Num::Int(Number::Scalar(NumericValue::Value(info.max)))));
    out.push(Frame::Num(Num::Int(Number::Scalar(NumericValue::Value(info.used)))));
    assert(views(out@) =~= seq![
        FrameView::Num(NumView::Int(NumberView::Scalar(NumericValue::Value(info.max)))),
        FrameView::Num(NumView::Int(NumberView::Scalar(NumericValue::Value(info.used)))),
    ]);
    out
}

} // verus!
