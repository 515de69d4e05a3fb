//! Frames: the tagged values that every stack carries.

use vstd::prelude::*;

use crate::types::list::List;
use crate::types::name::Name;
use crate::types::num::{Num, NumView};
use crate::vm::optypes::{BinaryOp, NaryOp, StackOp, UnaryOp, VmOp};

verus! {

/// A datum that executes when it comes off the exec stack.
#[derive(Debug, Clone, PartialEq)]
pub enum Active {
    String(String),
    Name(Name),
    Mark,
    List(List),
}

/// A datum that is pushed as data when it comes off the exec stack.
#[derive(Debug, Clone, PartialEq)]
pub enum Passive {
    String(String),
    Name(Name),
    Mark,
    List(List),
}

/// The mathematical content of an [`Active`] or a [`Passive`]: the datum
/// without its mode.
pub ghost enum Datum {
    String(Seq<char>),
    Name(Seq<char>),
    Mark,
    List(List),
}

impl View for Active {
    type V = Datum;

    open spec fn view(&self) -> Datum {
        match *self {
            Active::String(string) => Datum::String(string@),
            Active::Name(name) => Datum::Name(name@),
            Active::Mark => Datum::Mark,
            Active::List(list) => Datum::List(list),
        }
    }
}

impl View for Passive {
    type V = Datum;

    open spec fn view(&self) -> Datum {
        match *self {
            Passive::String(string) => Datum::String(string@),
            Passive::Name(name) => Datum::Name(name@),
            Passive::Mark => Datum::Mark,
            Passive::List(list) => Datum::List(list),
        }
    }
}

/// The universal operand.
#[derive(Debug, Clone, PartialEq)]
pub enum Frame {
    Num(Num),
    Null,
    UnaryOp(UnaryOp),
    BinaryOp(BinaryOp),
    StackOp(StackOp),
    NaryOp(NaryOp),
    VmOp(VmOp),
    Active(Active),
    Passive(Passive),
}

/// The mathematical content of a [`Frame`].
pub ghost enum FrameView {
    Num(NumView),
    Null,
    UnaryOp(UnaryOp),
    BinaryOp(BinaryOp),
    StackOp(StackOp),
    NaryOp(NaryOp),
    VmOp(VmOp),
    Active(Datum),
    Passive(Datum),
}

impl View for Frame {
    type V = FrameView;

    open spec fn view(&self) -> FrameView {
        match *self {
            Frame::Num(num) => FrameView::Num(num@),
            Frame::Null => FrameView::Null,
            Frame::UnaryOp(op) => FrameView::UnaryOp(op),
            Frame::BinaryOp(op) => FrameView::BinaryOp(op),
            Frame::StackOp(op) => FrameView::StackOp(op),
            Frame::NaryOp(op) => FrameView::NaryOp(op),
            Frame::VmOp(op) => FrameView::VmOp(op),
            Frame::Active(active) => FrameView::Active(active@),
            Frame::Passive(passive) => FrameView::Passive(passive@),
        }
    }
}

impl From<String> for Active {
    fn from(item: String) -> (out: Self) {
        Active::String(item)
    }
}

impl vstd::std_specs::convert::FromSpecImpl<String> for Active {
    open spec fn obeys_from_spec() -> bool {
        true
    }

    open spec fn from_spec(item: String) -> Self {
        Active::String(item)
    }
}

impl From<Name> for Active {
    fn from(item: Name) -> (out: Self) {
        Active::Name(item)
    }
}

impl vstd::std_specs::convert::FromSpecImpl<Name> for Active {
    open spec fn obeys_from_spec() -> bool {
        true
    }

    open spec fn from_spec(item: Name) -> Self {
        Active::Name(item)
    }
}

impl From<List> for Active {
    fn from(item: List) -> (out: Self) {
        Active::List(item)
    }
}

impl vstd::std_specs::convert::FromSpecImpl<List> for Active {
    open spec fn obeys_from_spec() -> bool {
        true
    }

    open spec fn from_spec(item: List) -> Self {
        Active::List(item)
    }
}

impl From<String> for Passive {
    fn from(item: String) -> (out: Self) {
        Passive::String(item)
    }
}

impl vstd::std_specs::convert::FromSpecImpl<String> for Passive {
    open spec fn obeys_from_spec() -> bool {
        true
    }

    open spec fn from_spec(item: String) -> Self {
        Passive::String(item)
    }
}

impl From<Name> for Passive {
    fn from(item: Name) -> (out: Self) {
        Passive::Name(item)
    }
}

impl vstd::std_specs::convert::FromSpecImpl<Name> for Passive {
    open spec fn obeys_from_spec() -> bool {
        true
    }

    open spec fn from_spec(item: Name) -> Self {
        Passive::Name(item)
    }
}

impl From<List> for Passive {
    fn from(item: List) -> (out: Self) {
        Passive::List(item)
    }
}

impl vstd::std_specs::convert::FromSpecImpl<List> for Passive {
    open spec fn obeys_from_spec() -> bool {
        true
    }

    open spec fn from_spec(item: List) -> Self {
        Passive::List(item)
    }
}

impl From<Num> for Frame {
    fn from(item: Num) -> (out: Self) {
        Frame::Num(item)
    }
}

impl vstd::std_specs::convert::FromSpecImpl<Num> for Frame {
    open spec fn obeys_from_spec() -> bool {
        true
    }

    open spec fn from_spec(item: Num) -> Self {
        Frame::Num(item)
    }
}

impl From<UnaryOp> for Frame {
    fn from(item: UnaryOp) -> (out: Self) {
        Frame::UnaryOp(item)
    }
}

impl vstd::std_specs::convert::FromSpecImpl<UnaryOp> for Frame {
    open spec fn obeys_from_spec() -> bool {
        true
    }

    open spec fn from_spec(item: UnaryOp) -> Self {
        Frame::UnaryOp(item)
    }
}

impl From<BinaryOp> for Frame {
    fn from(item: BinaryOp) -> (out: Self) {
        Frame::BinaryOp(item)
    }
}

impl vstd::std_specs::convert::FromSpecImpl<BinaryOp> for Frame {
    open spec fn obeys_from_spec() -> bool {
        true
    }

    open spec fn from_spec(item: BinaryOp) -> Self {
        Frame::BinaryOp(item)
    }
}

impl From<StackOp> for Frame {
    fn from(item: StackOp) -> (out: Self) {
        Frame::StackOp(item)
    }
}

impl vstd::std_specs::convert::FromSpecImpl<StackOp> for Frame {
    open spec fn obeys_from_spec() -> bool {
        true
    }

    open spec fn from_spec(item: StackOp) -> Self {
        Frame::StackOp(item)
    }
}

impl From<NaryOp> for Frame {
    fn from(item: NaryOp) -> (out: Self) {
        Frame::NaryOp(item)
    }
}

impl vstd::std_specs::convert::FromSpecImpl<NaryOp> for Frame {
    open spec fn obeys_from_spec() -> bool {
        true
    }

    open spec fn from_spec(item: NaryOp) -> Self {
        Frame::NaryOp(item)
    }
}

impl From<VmOp> for Frame {
    fn from(item: VmOp) -> (out: Self) {
        Frame::VmOp(item)
    }
}

impl vstd::std_specs::convert::FromSpecImpl<VmOp> for Frame {
    open spec fn obeys_from_spec() -> bool {
        true
    }

    open spec fn from_spec(item: VmOp) -> Self {
        Frame::VmOp(item)
    }
}

impl From<Passive> for Frame {
    fn from(item: Passive) -> (out: Self) {
        Frame::Passive(item)
    }
}

impl vstd::std_specs::convert::FromSpecImpl<Passive> for Frame {
    open spec fn obeys_from_spec() -> bool {
        true
    }

    open spec fn from_spec(item: Passive) -> Self {
        Frame::Passive(item)
    }
}

impl From<Active> for Frame {
    fn from(item: Active) -> (out: Self) {
        Frame::Active(item)
    }
}

impl vstd::std_specs::convert::FromSpecImpl<Active> for Frame {
    open spec fn obeys_from_spec() -> bool {
        true
    }

    open spec fn from_spec(item: Active) -> Self {
        Frame::Active(item)
    }
}

/// The contents of a sequence of frames.
pub open spec fn views(frames: Seq<Frame>) -> Seq<FrameView> {
    Seq::new(frames.len(), |i: int| frames[i]@)
}

impl Active {
    /// A copy with the same content.
    pub fn copy(&self) -> (out: Active)
        ensures
            out@ == self@,
    {
        match self {
            Active::String(string) => Active::String(string.clone()),
            Active::Name(name) => Active::Name(name.share()),
            Active::Mark => Active::Mark,
            Active::List(list) => Active::List(*list),
        }
    }
}

impl Passive {
    /// A copy with the same content.
    pub fn copy(&self) -> (out: Passive)
        ensures
            out@ == self@,
    {
        match self {
            Passive::String(string) => Passive::String(string.clone()),
            Passive::Name(name) => Passive::Name(name.share()),
            Passive::Mark => Passive::Mark,
            Passive::List(list) => Passive::List(*list),
        }
    }
}

impl Frame {
    /// A copy with the same content.
    pub fn copy(&self) -> (out: Frame)
        ensures
            out@ == self@,
    {
        match self {
            Frame::Num(num) => Frame::Num(num.copy()),
            Frame::Null => Frame::Null,
            Frame::UnaryOp(op) => Frame::UnaryOp(*op),
            Frame::BinaryOp(op) => Frame::BinaryOp(*op),
            Frame::StackOp(op) => Frame::StackOp(*op),
            Frame::NaryOp(op) => Frame::NaryOp(*op),
            Frame::VmOp(op) => Frame::VmOp(*op),
            Frame::Active(active) => Frame::Active(active.copy()),
            Frame::Passive(passive) => Frame::Passive(passive.copy()),
        }
    }
}

/// A copy of a sequence of frames.
pub fn copy_frames(frames: &Vec<Frame>) -> (out: Vec<Frame>)
    ensures
        views(out@) == views(frames@),
{
    let mut out: Vec<Frame> = Vec::new();
    let mut i: usize = 0;
    while i < frames.len()
        invariant
            i <= frames.len(),
            out.len() == i,
            forall|j: int| 0 <= j < i ==> out[j]@ == frames[j]@,
        decreases frames.len() - i,
    {
        out.push(frames[i].copy());
        i += 1;
    }
    assert(views(out@) =~= views(frames@));
    out
}

} // verus!
