//! What one step of the engine does, as a relation between the state before
//! and the state after.
//!
//! A step takes the last frame off the exec stack and executes it. Almost
//! every step is determined by the state before. Three things are the
//! host's: the values of arithmetic on floats, the text of a float, and the
//! judgement of a float literal. A step that meets one of them is specified
//! as far as the library decides, and no further.

use vstd::prelude::*;

use crate::error::ErrorView;
use crate::numeric::{NumberView, NumericValue};
use crate::reader::{names_among, parsed};
use crate::reader::lex::lex;
use crate::render::shown;
use crate::types::dict::Dict;
use crate::types::list::List;
use crate::types::num::NumView;
use crate::types::savable::SavedView;
use crate::types::save::{released, stored, SaveBox, SlotView};
use crate::vm::frame::{Datum, FrameView};
use crate::vm::naryops::{nary, offset_of};
use crate::vm::optypes::{NaryOp, StackOp, VmOp};
use crate::vm::state::VmView;

verus! {

/// The frame that a name is bound to in the first dictionary, from the
/// dictionary `from` on, that binds it; `MissingKey` with the name if none
/// does, `Dropped` if a dictionary that is asked has been released.
pub open spec fn found(
    dicts: Seq<Dict>,
    store: Seq<SlotView>,
    name: Seq<char>,
    from: int,
) -> Result<FrameView, ErrorView>
    decreases dicts.len() - from,
{
    if from < 0 || from >= dicts.len() {
        Err(ErrorView::MissingKey(name))
    } else {
        match dicts[from].find_spec(store, name) {
            Ok(Some(frame)) => Ok(frame),
            Ok(None) => found(dicts, store, name, from + 1),
            Err(error) => Err(error),
        }
    }
}

/// The place of the last frame that is `mark`, or `-1` if no frame is.
pub open spec fn last_mark(frames: Seq<FrameView>, mark: FrameView) -> int
    decreases frames.len(),
{
    if frames.len() == 0 {
        -1
    } else if frames.last() == mark {
        frames.len() - 1
    } else {
        last_mark(frames.drop_last(), mark)
    }
}

/// Where the last `mark` among frames is: at `i`, if it is there and not
/// above; nowhere, if no frame is `mark`.
pub proof fn lemma_last_mark(frames: Seq<FrameView>, mark: FrameView, i: int)
    requires
        -1 <= i < frames.len(),
        i >= 0 ==> frames[i] == mark,
        forall|j: int| i < j < frames.len() ==> frames[j] != mark,
    ensures
        last_mark(frames, mark) == i,
    decreases frames.len(),
{
    if frames.len() > 0 && frames.last() != mark {
        lemma_last_mark(frames.drop_last(), mark, i);
    }
}

/// The last `mark` among frames is a place among them, or `-1`; the frame at
/// that place is `mark`, and no frame above it is.
pub proof fn lemma_last_mark_is_last(frames: Seq<FrameView>, mark: FrameView)
    ensures
        -1 <= last_mark(frames, mark) < frames.len(),
        last_mark(frames, mark) >= 0 ==> frames[last_mark(frames, mark)] == mark,
        forall|j: int| last_mark(frames, mark) < j < frames.len() ==> frames[j] != mark,
    decreases frames.len(),
{
    if frames.len() > 0 && frames.last() != mark {
        lemma_last_mark_is_last(frames.drop_last(), mark);
        assert forall|j: int| last_mark(frames, mark) < j < frames.len() implies frames[j]
            != mark by {
            if j < frames.len() - 1 {
                assert(frames.drop_last()[j] == frames[j]);
            }
        }
    }
}

/// The state with one more frame on the operand stack.
pub open spec fn pushed(base: VmView, frame: FrameView) -> VmView {
    VmView { op_stack: base.op_stack.push(frame), ..base }
}

/// The state with one more frame on the exec stack.
pub open spec fn scheduled(base: VmView, frame: FrameView) -> VmView {
    VmView { exec_stack: base.exec_stack.push(frame), ..base }
}

/// Executing an active list: its first frame is scheduled to run next and,
/// if it has more, the list of the rest to run after that. An empty list
/// does nothing.
pub open spec fn unfolded(base: VmView, list: List) -> Result<VmView, ErrorView> {
    match list.len_spec(base.store) {
        Err(error) => Err(error),
        Ok(len) => if len == 0 {
            Ok(base)
        } else {
            match list.get_spec(base.store, 0) {
                Err(error) => Err(error),
                Ok(head) => if len > 1 {
                    match list.range_spec(base.store, 1, (len - 1) as usize) {
                        Err(error) => Err(error),
                        Ok(tail) => Ok(
                            scheduled(
                                scheduled(base, FrameView::Active(Datum::List(tail))),
                                head,
                            ),
                        ),
                    }
                } else {
                    Ok(scheduled(base, head))
                },
            }
        },
    }
}

/// Collecting the frames above the last `mark` into a list in the current
/// savebox: the frames and the mark leave the operand stack, and `made` of
/// the new list takes their place. `StackUnderflow` without a mark,
/// `Dropped` if the current savebox has been released.
pub open spec fn collected(base: VmView, mark: FrameView, active: bool) -> Result<
    VmView,
    ErrorView,
> {
    let m = last_mark(base.op_stack, mark);
    if m < 0 || base.save_stack.len() == 0 {
        Err(ErrorView::StackUnderflow)
    } else {
        let frames = base.op_stack.subrange(m + 1, base.op_stack.len() as int);
        let savebox = base.save_stack.last();
        if savebox.save(base.store) is None {
            Err(ErrorView::Dropped)
        } else {
            let list = List {
                parent: base.store.len() as usize,
                start: 0,
                len: frames.len() as usize,
            };
            Ok(
                VmView {
                    op_stack: base.op_stack.take(m).push(
                        if active {
                            FrameView::Active(Datum::List(list))
                        } else {
                            FrameView::Passive(Datum::List(list))
                        },
                    ),
                    store: stored(base.store, savebox.parent, SavedView::List(frames)),
                    ..base
                },
            )
        }
    }
}

/// What an operator on the engine does to a state whose operand stack holds
/// at least as many frames as the operator takes.
pub open spec fn vm_op(base: VmView, op: VmOp) -> Result<VmView, ErrorView> {
    let n = base.op_stack.len() as int;
    match op {
        VmOp::Name => match base.op_stack[n - 1] {
            FrameView::Passive(Datum::Name(name)) => Ok(
                VmView {
                    op_stack: base.op_stack.take(n - 2),
                    store: if base.dict_stack.len() > 0 {
                        match base.dict_stack[0].put_spec(base.store, name, base.op_stack[n - 2]) {
                            Ok(store) => store,
                            Err(_) => base.store,
                        }
                    } else {
                        base.store
                    },
                    ..base
                },
            ),
            _ => Err(ErrorView::OpType),
        },
        VmOp::MkName => match base.op_stack[n - 1] {
            FrameView::Passive(Datum::String(string)) => Ok(
                VmView {
                    op_stack: base.op_stack.take(n - 1).push(
                        FrameView::Passive(Datum::Name(string)),
                    ),
                    names: base.names.insert(string),
                    ..base
                },
            ),
            _ => Err(ErrorView::OpType),
        },
        VmOp::Exec => match base.op_stack[n - 1] {
            FrameView::Active(datum) => Ok(
                VmView {
                    op_stack: base.op_stack.take(n - 1),
                    exec_stack: base.exec_stack.push(FrameView::Active(datum)),
                    ..base
                },
            ),
            _ => Err(ErrorView::OpType),
        },
        VmOp::MkList => collected(base, FrameView::Passive(Datum::Mark), false),
        VmOp::MkProc => if base.proc_depth == 0 {
            Err(ErrorView::StackUnderflow)
        } else {
            match collected(base, FrameView::Active(Datum::Mark), true) {
                Ok(after) => Ok(VmView { proc_depth: (base.proc_depth - 1) as nat, ..after }),
                Err(error) => Err(error),
            }
        },
        VmOp::List => match base.op_stack[n - 1] {
            FrameView::Num(num) => match offset_of(num) {
                Err(error) => Err(error),
                Ok(len) => if base.save_stack.len() == 0 || base.save_stack.last().save(
                    base.store,
                ) is None {
                    Err(ErrorView::Dropped)
                } else {
                    Ok(
                        VmView {
                            op_stack: base.op_stack.take(n - 1).push(
                                FrameView::Passive(
                                    Datum::List(
                                        List { parent: base.store.len() as usize, start: 0, len },
                                    ),
                                ),
                            ),
                            store: stored(
                                base.store,
                                base.save_stack.last().parent,
                                SavedView::List(Seq::new(len as nat, |i: int| FrameView::Null)),
                            ),
                            ..base
                        },
                    )
                },
            },
            _ => Err(ErrorView::OpType),
        },
        VmOp::VmStatus => Ok(
            VmView {
                op_stack: base.op_stack.push(
                    FrameView::Num(
                        NumView::Int(NumberView::Scalar(NumericValue::Value(base.memory.0))),
                    ),
                ).push(
                    FrameView::Num(
                        NumView::Int(NumberView::Scalar(NumericValue::Value(base.memory.1))),
                    ),
                ),
                ..base
            },
        ),
    }
}

/// Whether `line` prints `frame` after the words `before`, as far as the
/// text of the frame is the library's to decide.
pub open spec fn prints(
    store: Seq<SlotView>,
    before: Seq<char>,
    frame: FrameView,
    line: Seq<char>,
) -> bool {
    shown(store, frame) matches Some(text) ==> line == before + text
}

/// Whether `lines` are what `show` prints of an operand stack: a heading,
/// the frames from the top down, and a rule.
pub open spec fn shows(store: Seq<SlotView>, op_stack: Seq<FrameView>, lines: Seq<Seq<char>>) -> bool {
    &&& lines.len() == op_stack.len() + 2
    &&& lines[0] == "Stack:"@
    &&& lines[lines.len() - 1] == "-----"@
    &&& forall|i: int|
        0 <= i < op_stack.len() ==> prints(
            store,
            "  "@,
            op_stack[op_stack.len() - 1 - i],
            #[trigger] lines[i + 1],
        )
}

/// Whether `post` is what an operator on the whole stack makes of `base`.
pub open spec fn stack_op(base: VmView, op: StackOp, post: VmView) -> bool {
    match op {
        StackOp::Clear => post == VmView { op_stack: Seq::empty(), ..base },
        StackOp::Show => {
            &&& post == VmView { output: post.output, ..base }
            &&& post.output.len() == base.output.len() + base.op_stack.len() + 2
            &&& post.output.take(base.output.len() as int) == base.output
            &&& shows(base.store, base.op_stack, post.output.skip(base.output.len() as int))
        },
        StackOp::Peek => {
            &&& post == VmView { output: post.output, ..base }
            &&& post.output.len() == base.output.len() + 1
            &&& post.output.drop_last() == base.output
            &&& if base.op_stack.len() == 0 {
                post.output.last() == "Stack: empty"@
            } else {
                prints(base.store, "Top: "@, base.op_stack.last(), post.output.last())
            }
        },
    }
}

/// The state after a savebox has been opened in the current one and made the
/// current one; `Dropped` if the current savebox has been released.
pub open spec fn saved(pre: VmView) -> Result<VmView, ErrorView> {
    if pre.save_stack.len() == 0 || pre.save_stack.last().save(pre.store) is None {
        Err(ErrorView::Dropped)
    } else {
        Ok(
            VmView {
                save_stack: pre.save_stack.push(SaveBox { parent: pre.store.len() as usize }),
                store: stored(
                    pre.store,
                    pre.save_stack.last().parent,
                    SavedView::Save(Seq::empty()),
                ),
                ..pre
            },
        )
    }
}

/// The state after the current savebox has been closed and released; `None`
/// while the base savebox is the current one.
pub open spec fn restored(pre: VmView) -> Option<VmView> {
    if pre.save_stack.len() <= 1 {
        None
    } else {
        Some(
            VmView {
                save_stack: pre.save_stack.drop_last(),
                store: if 0 < pre.save_stack.last().parent < pre.store.len() {
                    released(pre.store, pre.save_stack.last().parent)
                } else {
                    pre.store
                },
                ..pre
            },
        )
    }
}

/// Whether a frame that comes off the exec stack is collected as data: a
/// procedure literal is open, and the frame is not the operator that closes
/// one.
pub open spec fn collecting(base: VmView, frame: FrameView) -> bool {
    base.proc_depth > 0 && frame != FrameView::VmOp(VmOp::MkProc)
}

/// Whether the state `post` and the answer `out` are what executing `frame`
/// makes of the state `base`. On failure the state is as it was, but that
/// names which were read before a text failed stay interned.
pub open spec fn effect(base: VmView, frame: FrameView, post: VmView, out: Option<ErrorView>) -> bool {
    match frame {
        FrameView::Active(Datum::Mark) => out is None && post == VmView {
            proc_depth: base.proc_depth + 1,
            ..pushed(base, frame)
        },
        _ => if collecting(base, frame) {
            out is None && post == pushed(base, frame)
        } else {
            match frame {
                FrameView::Active(Datum::List(list)) => match unfolded(base, list) {
                    Ok(after) => out is None && post == after,
                    Err(error) => out == Some(error) && post == base,
                },
                FrameView::Active(Datum::Name(name)) => match found(
                    base.dict_stack,
                    base.store,
                    name,
                    0,
                ) {
                    Ok(frame) => out is None && post == scheduled(base, frame),
                    Err(error) => out == Some(error) && post == base,
                },
                FrameView::Active(Datum::String(text)) => {
                    &&& post == VmView { exec_stack: post.exec_stack, names: post.names, ..base }
                    &&& base.names.subset_of(post.names)
                    &&& match out {
                        None => {
                            &&& post.exec_stack.len() >= base.exec_stack.len()
                            &&& post.exec_stack.take(base.exec_stack.len() as int)
                                == base.exec_stack
                            &&& parsed(
                                text,
                                Ok(post.exec_stack.skip(base.exec_stack.len() as int).reverse()),
                            )
                            &&& post.names == base.names.union(
                                names_among(lex(text, 0).tokens, lex(text, 0).tokens.len() as int),
                            )
                        },
                        Some(error) => post.exec_stack == base.exec_stack && parsed(
                            text,
                            Err(error),
                        ),
                    }
                },
                FrameView::UnaryOp(op) => post == VmView { op_stack: post.op_stack, ..base }
                    && op.effect(base.op_stack, post.op_stack, out),
                FrameView::BinaryOp(op) => post == VmView { op_stack: post.op_stack, ..base }
                    && op.effect(base.op_stack, post.op_stack, out),
                FrameView::NaryOp(op) => if base.op_stack.len() < op.arity() {
                    out == Some(ErrorView::StackUnderflow) && post == base
                } else {
                    let m = base.op_stack.len() - op.arity();
                    match nary(
                        op,
                        base.op_stack.subrange(m, base.op_stack.len() as int),
                        base.store,
                    ) {
                        Ok((left, store)) => out is None && post == VmView {
                            op_stack: base.op_stack.take(m) + left,
                            store,
                            ..base
                        },
                        Err(error) => out == Some(error) && post == base,
                    }
                },
                FrameView::StackOp(op) => out is None && stack_op(base, op, post),
                FrameView::VmOp(op) => if base.op_stack.len() < op.arity() {
                    out == Some(ErrorView::StackUnderflow) && post == base
                } else {
                    match vm_op(base, op) {
                        Ok(after) => out is None && post == after,
                        Err(error) => out == Some(error) && post == base,
                    }
                },
                _ => out is None && post == pushed(base, frame),
            }
        },
    }
}

/// Whether the state `post` and the answer `out` are what one step makes of
/// the state `pre`.
///
/// With an empty exec stack nothing happens, and the answer is `false`.
/// Else the last frame comes off the exec stack and is executed. If that
/// fails, the rest of the exec stack is discarded and the error is the
/// answer; the operand stack, the store and the open procedure literals are
/// as they were before the step.
pub open spec fn step(pre: VmView, post: VmView, out: Result<bool, ErrorView>) -> bool {
    if pre.exec_stack.len() == 0 {
        out == Ok::<bool, ErrorView>(false) && post == pre
    } else {
        let base = VmView { exec_stack: pre.exec_stack.drop_last(), ..pre };
        let frame = pre.exec_stack.last();
        match out {
            Ok(more) => more && effect(base, frame, post, None),
            Err(error) => post.exec_stack == Seq::<FrameView>::empty() && effect(
                base,
                frame,
                VmView { exec_stack: base.exec_stack, ..post },
                Some(error),
            ),
        }
    }
}

} // verus!
