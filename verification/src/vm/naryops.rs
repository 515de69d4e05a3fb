//! The operators that take a fixed number of frames off the operand stack
//! and leave what they make of them.

use vstd::prelude::*;

use crate::error::{Error, ErrorView};
use crate::numeric::primitive::NumericPrimitive;
use crate::numeric::{Number, NumberView, NumericValue};
use crate::types::list::List;
use crate::types::num::{Num, NumView};
use crate::types::save::{SlotView, Store};
use crate::vm::frame::{views, Active, Datum, Frame, FrameView, Passive};
use crate::vm::optypes::NaryOp;

verus! {

pub const POP: NaryOp = NaryOp::Pop;

pub const DUP: NaryOp = NaryOp::Dup;

pub const EXCH: NaryOp = NaryOp::Exch;

pub const GET: NaryOp = NaryOp::Get;

pub const PUT: NaryOp = NaryOp::Put;

pub const LENGTH: NaryOp = NaryOp::Length;

pub const GETINTERVAL: NaryOp = NaryOp::GetInterval;

pub const QUIT: NaryOp = NaryOp::Quit;

pub const MKSTR: NaryOp = NaryOp::MkStr;

pub const MKPASS: NaryOp = NaryOp::MkPass;

pub const MKACT: NaryOp = NaryOp::MkAct;

/// The offset that a value denotes: `IllNan` for `NaN`, `IllNeg` for a
/// negative value.
pub open spec fn index_of<T: NumericPrimitive>(value: NumericValue<T>) -> Result<usize, ErrorView> {
    match value {
        NumericValue::NaN => Err(ErrorView::IllNan),
        NumericValue::Value(v) => if v.value() < 0 {
            Err(ErrorView::IllNeg)
        } else {
            Ok(v.value() as usize)
        },
    }
}

/// The offset that a number denotes: that of an integer scalar; `OpType` for
/// an array and for a float.
pub open spec fn offset_of(num: NumView) -> Result<usize, ErrorView> {
    match num {
        NumView::Int(NumberView::Scalar(i)) => index_of(i),
        NumView::USize(NumberView::Scalar(i)) => index_of(i),
        _ => Err(ErrorView::OpType),
    }
}

/// A value as an offset into a list.
pub fn to_index<T: NumericPrimitive>(value: NumericValue<T>) -> (out: Result<usize, Error>)
    ensures
        match out {
            Ok(index) => index_of(value) == Ok::<usize, ErrorView>(index),
            Err(error) => index_of(value) == Err::<usize, ErrorView>(error@),
        },
{
    if value.is_nan() {
        return Err(Error::IllNan);
    }
    let value = value.to_primitive();
    if value.is_negative() {
        return Err(Error::IllNeg);
    }
    Ok(value.as_index())
}

/// A number as an offset into a list.
pub fn from_num(num: Num) -> (out: Result<usize, Error>)
    ensures
        match out {
            Ok(index) => offset_of(num@) == Ok::<usize, ErrorView>(index),
            Err(error) => offset_of(num@) == Err::<usize, ErrorView>(error@),
        },
{
    match num {
        Num::Int(Number::Scalar(i)) => to_index(i),
        Num::USize(Number::Scalar(i)) => to_index(i),
        _ => Err(Error::OpType),
    }
}

/// What an operator leaves for the frames that it took, and the store as it
/// leaves it.
pub open spec fn nary(op: NaryOp, taken: Seq<FrameView>, store: Seq<SlotView>) -> Result<
    (Seq<FrameView>, Seq<SlotView>),
    ErrorView,
> {
    match op {
        NaryOp::Pop => Ok((Seq::empty(), store)),
        NaryOp::Dup => Ok((seq![taken[0], taken[0]], store)),
        NaryOp::Exch => Ok((seq![taken[1], taken[0]], store)),
        NaryOp::Get => match (taken[0], taken[1]) {
            (FrameView::Passive(Datum::List(list)), FrameView::Num(n)) => match offset_of(n) {
                Ok(index) => match list.get_spec(store, index) {
                    Ok(frame) => Ok((seq![frame], store)),
                    Err(error) => Err(error),
                },
                Err(error) => Err(error),
            },
            _ => Err(ErrorView::OpType),
        },
        NaryOp::Put => match (taken[1], taken[2]) {
            (FrameView::Passive(Datum::List(list)), FrameView::Num(n)) => match offset_of(n) {
                Ok(index) => match list.put_spec(store, index, taken[0]) {
                    Ok(after) => Ok((Seq::empty(), after)),
                    Err(error) => Err(error),
                },
                Err(error) => Err(error),
            },
            _ => Err(ErrorView::OpType),
        },
        NaryOp::Length => match taken[0] {
            FrameView::Passive(Datum::List(list)) => match list.len_spec(store) {
                Ok(len) => Ok(
                    (
                        seq![
                            FrameView::Num(
                                NumView::USize(NumberView::Scalar(NumericValue::Value(len))),
                            ),
                        ],
                        store,
                    ),
                ),
                Err(error) => Err(error),
            },
            _ => Err(ErrorView::OpType),
        },
        NaryOp::GetInterval => match (taken[0], taken[1], taken[2]) {
            (
                FrameView::Passive(Datum::List(list)),
                FrameView::Num(start),
                FrameView::Num(len),
            ) => match offset_of(start) {
                Ok(start) => match offset_of(len) {
                    Ok(len) => match list.range_spec(store, start, len) {
                        Ok(sub) => Ok((seq![FrameView::Passive(Datum::List(sub))], store)),
                        Err(error) => Err(error),
                    },
                    Err(error) => Err(error),
                },
                Err(error) => Err(error),
            },
            _ => Err(ErrorView::OpType),
        },
        NaryOp::Quit => Err(ErrorView::Quit),
        NaryOp::MkStr => match taken[0] {
            FrameView::Passive(Datum::Name(name)) => Ok(
                (seq![FrameView::Passive(Datum::String(name))], store),
            ),
            _ => Err(ErrorView::OpType),
        },
        NaryOp::MkPass => match taken[0] {
            FrameView::Active(datum) => Ok((seq![FrameView::Passive(datum)], store)),
            _ => Err(ErrorView::OpType),
        },
        NaryOp::MkAct => match taken[0] {
            FrameView::Passive(datum) => Ok((seq![FrameView::Active(datum)], store)),
            _ => Err(ErrorView::OpType),
        },
    }
}

impl NaryOp {
    /// The word that the built-in dictionary binds to the operator.
    pub open spec fn word(self) -> Seq<char> {
        match self {
            NaryOp::Pop => "pop"@,
            NaryOp::Dup => "dup"@,
            NaryOp::Exch => "exch"@,
            NaryOp::Get => "get"@,
            NaryOp::Put => "put"@,
            NaryOp::Length => "length"@,
            NaryOp::GetInterval => "getinterval"@,
            NaryOp::Quit => "quit"@,
            NaryOp::MkStr => "mkstr"@,
            NaryOp::MkPass => "mkpass"@,
            NaryOp::MkAct => "mkact"@,
        }
    }

    /// The word that the built-in dictionary binds to the operator.
    pub fn name(&self) -> (out: &'static str)
        ensures
            out@ == self.word(),
    {
        match self {
            NaryOp::Pop => "pop",
            NaryOp::Dup => "dup",
            NaryOp::Exch => "exch",
            NaryOp::Get => "get",
            NaryOp::Put => "put",
            NaryOp::Length => "length",
            NaryOp::GetInterval => "getinterval",
            NaryOp::Quit => "quit",
            NaryOp::MkStr => "mkstr",
            NaryOp::MkPass => "mkpass",
            NaryOp::MkAct => "mkact",
        }
    }

    /// The number of frames that the operator takes.
    pub open spec fn arity(self) -> nat {
        match self {
            NaryOp::Pop => 1,
            NaryOp::Dup => 1,
            NaryOp::Exch => 2,
            NaryOp::Get => 2,
            NaryOp::Put => 3,
            NaryOp::Length => 1,
            NaryOp::GetInterval => 3,
            NaryOp::Quit => 0,
            NaryOp::MkStr => 1,
            NaryOp::MkPass => 1,
            NaryOp::MkAct => 1,
        }
    }

    /// The number of frames that the operator takes.
    pub fn n(&self) -> (out: usize)
        ensures
            out == self.arity(),
    {
        match self {
            NaryOp::Pop => 1,
            NaryOp::Dup => 1,
            NaryOp::Exch => 2,
            NaryOp::Get => 2,
            NaryOp::Put => 3,
            NaryOp::Length => 1,
            NaryOp::GetInterval => 3,
            NaryOp::Quit => 0,
            NaryOp::MkStr => 1,
            NaryOp::MkPass => 1,
            NaryOp::MkAct => 1,
        }
    }
}

/// Whether `out` and the store `after` are what the operator `op` leaves for
/// the frames `taken` and the store `before`. On failure the store is as it
/// was.
pub open spec fn nary_done(
    op: NaryOp,
    taken: Seq<FrameView>,
    before: Seq<SlotView>,
    out: Result<Vec<Frame>, Error>,
    after: Seq<SlotView>,
) -> bool {
    match out {
        Ok(left) => nary(op, taken, before) == Ok::<(Seq<FrameView>, Seq<SlotView>), ErrorView>(
            (views(left@), after),
        ),
        Err(error) => nary(op, taken, before) == Err::<(Seq<FrameView>, Seq<SlotView>), ErrorView>(
            error@,
        ) && after == before,
    }
}

/// `pop`: discards the frame.
pub fn fpop(substack: Vec<Frame>, store: &Store) -> (out: Result<Vec<Frame>, Error>)
    requires
        substack.len() == 1,
    ensures
        nary_done(NaryOp::Pop, views(substack@), store@, out, store@),
{
    let out: Vec<Frame> = Vec::new();
    assert(views(out@) =~= Seq::<FrameView>::empty());
    Ok(out)
}

/// `dup`: leaves the frame twice.
pub fn fdup(substack: Vec<Frame>, store: &Store) -> (out: Result<Vec<Frame>, Error>)
    requires
        substack.len() == 1,
    ensures
        nary_done(NaryOp::Dup, views(substack@), store@, out, store@),
{
    let ghost taken = views(substack@);
    let mut substack = substack;
    let last = substack.pop().unwrap();
    let copy = last.copy();
    let mut out: Vec<Frame> = Vec::new();
    out.push(last);
    out.push(copy);
    assert(views(out@) =~= seq![taken[0], taken[0]]);
    Ok(out)
}

/// `exch`: leaves the two frames in the other order.
pub fn fexch(substack: Vec<Frame>, store: &Store) -> (out: Result<Vec<Frame>, Error>)
    requires
        substack.len() == 2,
    ensures
        nary_done(NaryOp::Exch, views(substack@), store@, out, store@),
{
    let ghost taken = views(substack@);
    let mut substack = substack;
    let f2 = substack.pop().unwrap();
    let f1 = substack.pop().unwrap();
    let mut out: Vec<Frame> = Vec::new();
    out.push(f2);
    out.push(f1);
    assert(views(out@) =~= seq![taken[1], taken[0]]);
    Ok(out)
}

/// `get`: takes a passive list and an offset, and leaves the frame that the
/// list has there.
pub fn fget(substack: Vec<Frame>, store: &Store) -> (out: Result<Vec<Frame>, Error>)
    requires
        substack.len() == 2,
        store.wf(),
    ensures
        nary_done(NaryOp::Get, views(substack@), store@, out, store@),
{
    let ghost taken = views(substack@);
    let mut substack = substack;
    let f2 = substack.pop().unwrap();
    let f1 = substack.pop().unwrap();
    assert(f1@ == taken[0] && f2@ == taken[1]);
    match (f1, f2) {
        (Frame::Passive(Passive::List(list)), Frame::Num(n)) => {
            let index = match from_num(n) {
                Ok(index) => index,
                Err(error) => {
                    return Err(error);
                },
            };
            match list.get(store, index) {
                Ok(frame) => {
                    let mut out: Vec<Frame> = Vec::new();
                    out.push(frame);
                    assert(views(out@) =~= seq![frame@]);
                    Ok(out)
                },
                Err(error) => Err(error),
            }
        },
        _ => Err(Error::OpType),
    }
}

/// `put`: takes a frame, a passive list and an offset, and puts the frame
/// into the list there.
pub fn fput(substack: Vec<Frame>, store: &mut Store) -> (out: Result<Vec<Frame>, Error>)
    requires
        substack.len() == 3,
        old(store).wf(),
    ensures
        final(store).wf(),
        nary_done(NaryOp::Put, views(substack@), old(store)@, out, final(store)@),
{
    let ghost taken = views(substack@);
    let mut substack = substack;
    let f3 = substack.pop().unwrap();
    let f2 = substack.pop().unwrap();
    let f1 = substack.pop().unwrap();
    assert(f1@ == taken[0] && f2@ == taken[1] && f3@ == taken[2]);
    match (f2, f3) {
        (Frame::Passive(Passive::List(list)), Frame::Num(n)) => {
            let index = match from_num(n) {
                Ok(index) => index,
                Err(error) => {
                    return Err(error);
                },
            };
            let mut list = list;
            match list.put(store, index, f1) {
                Some(error) => Err(error),
                None => {
                    let out: Vec<Frame> = Vec::new();
                    assert(views(out@) =~= Seq::<FrameView>::empty());
                    Ok(out)
                },
            }
        },
        _ => Err(Error::OpType),
    }
}

/// `length`: takes a passive list and leaves the number of its frames, an
/// unsigned scalar.
pub fn flength(substack: Vec<Frame>, store: &Store) -> (out: Result<Vec<Frame>, Error>)
    requires
        substack.len() == 1,
        store.wf(),
    ensures
        nary_done(NaryOp::Length, views(substack@), store@, out, store@),
{
    let ghost taken = views(substack@);
    let mut substack = substack;
    let f1 = substack.pop().unwrap();
    assert(f1@ == taken[0]);
    match f1 {
        Frame::Passive(Passive::List(list)) => match list.len(store) {
            Ok(len) => {
                let mut out: Vec<Frame> = Vec::new();
                let frame = Frame::Num(Num::USize(Number::Scalar(NumericValue::Value(len))));
                out.push(frame);
                assert(views(out@) =~= seq![frame@]);
                Ok(out)
            },
            Err(error) => Err(error),
        },
        _ => Err(Error::OpType),
    }
}

/// `getinterval`: takes a passive list, an offset and a length, and leaves
/// the passive list of that window.
pub fn fgetinterval(substack: Vec<Frame>, store: &Store) -> (out: Result<Vec<Frame>, Error>)
    requires
        substack.len() == 3,
        store.wf(),
    ensures
        nary_done(NaryOp::GetInterval, views(substack@), store@, out, store@),
{
    let ghost taken = views(substack@);
    let mut substack = substack;
    let f3 = substack.pop().unwrap();
    let f2 = substack.pop().unwrap();
    let f1 = substack.pop().unwrap();
    assert(f1@ == taken[0] && f2@ == taken[1] && f3@ == taken[2]);
    match (f1, f2, f3) {
        (Frame::Passive(Passive::List(list)), Frame::Num(start), Frame::Num(len)) => {
            let start = match from_num(start) {
                Ok(start) => start,
                Err(error) => {
                    return Err(error);
                },
            };
            let len = match from_num(len) {
                Ok(len) => len,
                Err(error) => {
                    return Err(error);
                },
            };
            match list.range(store, start, len) {
                Ok(sub) => {
                    let mut out: Vec<Frame> = Vec::new();
                    out.push(Frame::Passive(Passive::List(sub)));
                    assert(views(out@) =~= seq![FrameView::Passive(Datum::List(sub))]);
                    Ok(out)
                },
                Err(error) => Err(error),
            }
        },
        _ => Err(Error::OpType),
    }
}

/// `quit`: raises `Quit`.
pub fn fquit(substack: Vec<Frame>, store: &Store) -> (out: Result<Vec<Frame>, Error>)
    ensures
        nary_done(NaryOp::Quit, views(substack@), store@, out, store@),
{
    Err(Error::Quit)
}

/// `mkstr`: takes a passive name and leaves its string.
pub fn mkstr(substack: Vec<Frame>, store: &Store) -> (out: Result<Vec<Frame>, Error>)
    requires
        substack.len() == 1,
    ensures
        nary_done(NaryOp::MkStr, views(substack@), store@, out, store@),
{
    let ghost taken = views(substack@);
    let mut substack = substack;
    let f1 = substack.pop().unwrap();
    assert(f1@ == taken[0]);
    match f1 {
        Frame::Passive(Passive::Name(name)) => {
            let mut out: Vec<Frame> = Vec::new();
            let frame = Frame::Passive(Passive::String(name.into_string()));
            out.push(frame);
            assert(views(out@) =~= seq![frame@]);
            Ok(out)
        },
        _ => Err(Error::OpType),
    }
}

/// `mkpass`: takes an active datum and leaves it passive.
pub fn mkpass(substack: Vec<Frame>, store: &Store) -> (out: Result<Vec<Frame>, Error>)
    requires
        substack.len() == 1,
    ensures
        nary_done(NaryOp::MkPass, views(substack@), store@, out, store@),
{
    let ghost taken = views(substack@);
    let mut substack = substack;
    let f1 = substack.pop().unwrap();
    assert(f1@ == taken[0]);
    match f1 {
        Frame::Active(active) => {
            let passive = match active {
                Active::Name(name) => Passive::Name(name),
                Active::String(string) => Passive::String(string),
                Active::Mark => Passive::Mark,
                Active::List(list) => Passive::List(list),
            };
            let mut out: Vec<Frame> = Vec::new();
            let frame = Frame::Passive(passive);
            out.push(frame);
            assert(views(out@) =~= seq![frame@]);
            Ok(out)
        },
        _ => Err(Error::OpType),
    }
}

/// `mkact`: takes a passive datum and leaves it active.
pub fn mkact(substack: Vec<Frame>, store: &Store) -> (out: Result<Vec<Frame>, Error>)
    requires
        substack.len() == 1,
    ensures
        nary_done(NaryOp::MkAct, views(substack@), store@, out, store@),
{
    let ghost taken = views(substack@);
    let mut substack = substack;
    let f1 = substack.pop().unwrap();
    assert(f1@ == taken[0]);
    match f1 {
        Frame::Passive(passive) => {
            let active = match passive {
                Passive::Name(name) => Active::Name(name),
                Passive::String(string) => Active::String(string),
                Passive::Mark => Active::Mark,
                Passive::List(list) => Active::List(list),
            };
            let mut out: Vec<Frame> = Vec::new();
            let frame = Frame::Active(active);
            out.push(frame);
            assert(views(out@) =~= seq![frame@]);
            Ok(out)
        },
        _ => Err(Error::OpType),
    }
}

impl NaryOp {
    /// Runs the operator on the frames that were taken off the operand
    /// stack for it, the deepest first.
    pub fn run(&self, substack: Vec<Frame>, store: &mut Store) -> (out: Result<Vec<Frame>, Error>)
        requires
            substack.len() == self.arity(),
            old(store).wf(),
        ensures
            final(store).wf(),
            nary_done(*self, views(substack@), old(store)@, out, final(store)@),
    {
        match self {
            NaryOp::Pop => fpop(substack, store),
            NaryOp::Dup => fdup(substack, store),
            NaryOp::Exch => fexch(substack, store),
            NaryOp::Get => fget(substack, store),
            NaryOp::Put => fput(substack, store),
            NaryOp::Length => flength(substack, store),
            NaryOp::GetInterval => fgetinterval(substack, store),
            NaryOp::Quit => fquit(substack, store),
            NaryOp::MkStr => mkstr(substack, store),
            NaryOp::MkPass => mkpass(substack, store),
            NaryOp::MkAct => mkact(substack, store),
        }
    }
}

} // verus!
