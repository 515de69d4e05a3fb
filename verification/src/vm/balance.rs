//! Marks and what closes them: a text whose brackets are balanced leaves no
//! mark behind.
//!
//! `[` and `{` put a mark on the operand stack, and `]` and `}` take the
//! last mark of their kind off again, with all that lies above it. While a
//! procedure literal is open, everything but `{` and `}` is collected as
//! data; what is collected lies above the mark of the literal and leaves
//! with it.

use vstd::prelude::*;

use crate::vm::frame::{Datum, FrameView};
use crate::vm::optypes::{NaryOp, VmOp};
use crate::vm::reaches;
use crate::vm::naryops::nary;
use crate::vm::rules::{collecting, effect, last_mark, lemma_last_mark_is_last, step};
use crate::vm::state::{
    active_marks, lemma_active_marks_split, lemma_no_active_marks, VmView,
};

verus! {

/// The number of passive marks among frames that lie below every active
/// mark: the marks of the lists that are open outside every procedure
/// literal.
pub open spec fn ground_marks(frames: Seq<FrameView>) -> nat
    decreases frames.len(),
{
    if frames.len() == 0 {
        0
    } else if active_marks(frames.drop_last()) == 0 && frames.last() == FrameView::Passive(
        Datum::Mark,
    ) {
        ground_marks(frames.drop_last()) + 1
    } else {
        ground_marks(frames.drop_last())
    }
}

/// Whether a frame is a mark of either kind.
pub open spec fn is_mark(frame: FrameView) -> bool {
    frame == FrameView::Active(Datum::Mark) || frame == FrameView::Passive(Datum::Mark)
}

/// Whether no frame is a mark.
pub open spec fn markless(frames: Seq<FrameView>) -> bool {
    forall|i: int| 0 <= i < frames.len() ==> !is_mark(#[trigger] frames[i])
}

/// A frame more.
pub proof fn lemma_marks_push(frames: Seq<FrameView>, frame: FrameView)
    ensures
        active_marks(frames.push(frame)) == active_marks(frames) + if frame == FrameView::Active(
            Datum::Mark,
        ) {
            1nat
        } else {
            0nat
        },
        ground_marks(frames.push(frame)) == ground_marks(frames) + if active_marks(frames) == 0
            && frame == FrameView::Passive(Datum::Mark) {
            1nat
        } else {
            0nat
        },
{
    assert(frames.push(frame).drop_last() =~= frames);
}

/// The first frames have no more marks than all of them.
pub proof fn lemma_marks_take(frames: Seq<FrameView>, j: int)
    requires
        0 <= j <= frames.len(),
    ensures
        active_marks(frames.take(j)) <= active_marks(frames),
        ground_marks(frames.take(j)) <= ground_marks(frames),
    decreases frames.len() - j,
{
    if j < frames.len() {
        lemma_marks_take(frames, j + 1);
        assert(frames.take(j + 1).drop_last() =~= frames.take(j));
    } else {
        assert(frames.take(j) =~= frames);
    }
}

/// Frames that are no marks add no marks.
pub proof fn lemma_marks_add(frames: Seq<FrameView>, added: Seq<FrameView>)
    requires
        markless(added),
    ensures
        active_marks(frames + added) == active_marks(frames),
        ground_marks(frames + added) == ground_marks(frames),
    decreases added.len(),
{
    if added.len() == 0 {
        assert(frames + added =~= frames);
    } else {
        lemma_marks_add(frames, added.drop_last());
        assert(frames + added =~= (frames + added.drop_last()).push(added.last()));
        lemma_marks_push(frames + added.drop_last(), added.last());
        assert(!is_mark(added[added.len() - 1]));
    }
}

/// Without the last passive mark and all above it there is one ground mark
/// less, where no active mark is among the frames.
pub proof fn lemma_marks_close_list(frames: Seq<FrameView>)
    requires
        active_marks(frames) == 0,
        last_mark(frames, FrameView::Passive(Datum::Mark)) >= 0,
    ensures
        active_marks(frames.take(last_mark(frames, FrameView::Passive(Datum::Mark)))) == 0,
        ground_marks(frames.take(last_mark(frames, FrameView::Passive(Datum::Mark)))) + 1
            <= ground_marks(frames),
{
    let mark = FrameView::Passive(Datum::Mark);
    let m = last_mark(frames, mark);
    lemma_last_mark_is_last(frames, mark);
    lemma_marks_take(frames, m);
    lemma_marks_take(frames, m + 1);
    assert(frames.take(m + 1) =~= frames.take(m).push(mark));
    lemma_marks_push(frames.take(m), mark);
}

/// Without the last active mark and all above it there is one active mark
/// less, and no ground mark more.
pub proof fn lemma_marks_close_proc(frames: Seq<FrameView>)
    requires
        last_mark(frames, FrameView::Active(Datum::Mark)) >= 0,
    ensures
        active_marks(frames.take(last_mark(frames, FrameView::Active(Datum::Mark)))) + 1
            == active_marks(frames),
        ground_marks(frames.take(last_mark(frames, FrameView::Active(Datum::Mark))))
            <= ground_marks(frames),
{
    let mark = FrameView::Active(Datum::Mark);
    let m = last_mark(frames, mark);
    lemma_last_mark_is_last(frames, mark);
    lemma_marks_take(frames, m);
    let below = frames.take(m);
    let above = frames.subrange(m + 1, frames.len() as int);
    assert(frames =~= below.push(mark) + above);
    lemma_active_marks_split(below.push(mark), above);
    lemma_marks_push(below, mark);
    assert forall|i: int| 0 <= i < above.len() implies above[i] != mark by {
        assert(above[i] == frames[m + 1 + i]);
    }
    lemma_no_active_marks(above);
}

/// Frames without marks have none, and frames that have none are without
/// marks.
pub proof fn lemma_markless(frames: Seq<FrameView>)
    ensures
        markless(frames) <==> active_marks(frames) == 0 && ground_marks(frames) == 0,
    decreases frames.len(),
{
    if frames.len() > 0 {
        lemma_markless(frames.drop_last());
        if markless(frames) {
            assert forall|i: int| 0 <= i < frames.drop_last().len() implies !is_mark(
                #[trigger] frames.drop_last()[i],
            ) by {
                assert(!is_mark(frames[i]));
            }
            assert(!is_mark(frames[frames.len() - 1]));
        }
        if active_marks(frames) == 0 && ground_marks(frames) == 0 {
            assert forall|i: int| 0 <= i < frames.len() implies !is_mark(#[trigger] frames[i]) by {
                if i < frames.len() - 1 {
                    assert(!is_mark(frames.drop_last()[i]));
                }
            }
        }
    }
}

/// Whether a frame is of the kinds that a balanced text is made of: data,
/// the four brackets, and the operators that neither schedule frames nor
/// bring frames onto the operand stack that were put away before. Left out
/// are the active names, strings and lists, `exec`, `dup`, `exch`, `get`,
/// `mkpass` and `mkact`: what they bring onto the operand stack may be a
/// mark that no bracket of the text put there.
pub open spec fn is_plain(frame: FrameView) -> bool {
    match frame {
        FrameView::Active(datum) => datum is Mark,
        FrameView::NaryOp(op) => op == NaryOp::Pop || op == NaryOp::Put || op == NaryOp::Length
            || op == NaryOp::GetInterval || op == NaryOp::MkStr || op == NaryOp::Quit,
        FrameView::VmOp(op) => op != VmOp::Exec,
        _ => true,
    }
}

/// Whether the brackets of the frames from frame `k` on are balanced, with
/// `p` lists and `d` procedure literals open before them: every `]` closes
/// a `[`, every `}` closes a `{`, and none stays open. Inside a procedure
/// literal `[` and `]` are data.
pub open spec fn closes_all(frames: Seq<FrameView>, k: int, p: nat, d: nat) -> bool
    decreases frames.len() - k,
{
    if k < 0 || k >= frames.len() {
        p == 0 && d == 0
    } else if frames[k] == FrameView::Active(Datum::Mark) {
        closes_all(frames, k + 1, p, d + 1)
    } else if frames[k] == FrameView::VmOp(VmOp::MkProc) {
        d > 0 && closes_all(frames, k + 1, p, (d - 1) as nat)
    } else if d > 0 {
        closes_all(frames, k + 1, p, d)
    } else if frames[k] == FrameView::Passive(Datum::Mark) {
        closes_all(frames, k + 1, p + 1, d)
    } else if frames[k] == FrameView::VmOp(VmOp::MkList) {
        p > 0 && closes_all(frames, k + 1, (p - 1) as nat, d)
    } else {
        closes_all(frames, k + 1, p, d)
    }
}

/// Whether executing `frame` takes the count of open lists from at most `p`
/// to at most `q` and the count of open procedure literals from `d` to `e`
/// as the brackets say.
pub open spec fn moved(frame: FrameView, p: nat, d: nat, q: nat, e: nat) -> bool {
    if frame == FrameView::Active(Datum::Mark) {
        q == p && e == d + 1
    } else if frame == FrameView::VmOp(VmOp::MkProc) {
        d > 0 && q == p && e == d - 1
    } else if d > 0 {
        q == p && e == d
    } else if frame == FrameView::Passive(Datum::Mark) {
        q == p + 1 && e == d
    } else if frame == FrameView::VmOp(VmOp::MkList) {
        p > 0 && q == p - 1 && e == d
    } else {
        q == p && e == d
    }
}

/// One step on a plain frame: the frame comes off the exec stack and nothing
/// is scheduled; there are as many active marks as open procedure literals
/// after it as before it; and the open lists and literals are counted on as
/// the frame says.
pub proof fn lemma_plain_step(mid: VmView, s: VmView, p: nat) -> (q: nat)
    requires
        mid.exec_stack.len() > 0,
        is_plain(mid.exec_stack.last()),
        step(mid, s, Ok(true)),
        active_marks(mid.op_stack) == mid.proc_depth,
        ground_marks(mid.op_stack) <= p,
    ensures
        s.exec_stack == mid.exec_stack.drop_last(),
        active_marks(s.op_stack) == s.proc_depth,
        ground_marks(s.op_stack) <= q,
        moved(mid.exec_stack.last(), p, mid.proc_depth, q, s.proc_depth),
{
    let frame = mid.exec_stack.last();
    let base = VmView { exec_stack: mid.exec_stack.drop_last(), ..mid };
    let op = base.op_stack;
    let n = op.len() as int;
    assert(effect(base, frame, s, None));
    if frame == FrameView::Active(Datum::Mark) {
        lemma_marks_push(op, frame);
        p
    } else if collecting(base, frame) {
        lemma_marks_push(op, frame);
        p
    } else {
        match frame {
            FrameView::VmOp(VmOp::MkProc) => {
                let mark = FrameView::Active(Datum::Mark);
                let m = last_mark(op, mark);
                lemma_marks_close_proc(op);
                lemma_marks_push(op.take(m), s.op_stack.last());
                p
            },
            FrameView::VmOp(VmOp::MkList) => {
                let mark = FrameView::Passive(Datum::Mark);
                let m = last_mark(op, mark);
                lemma_marks_close_list(op);
                lemma_marks_push(op.take(m), s.op_stack.last());
                (p - 1) as nat
            },
            FrameView::VmOp(VmOp::Name) => {
                lemma_marks_take(op, n - 2);
                p
            },
            FrameView::VmOp(VmOp::MkName) => {
                lemma_marks_take(op, n - 1);
                lemma_marks_push(op.take(n - 1), s.op_stack.last());
                p
            },
            FrameView::VmOp(VmOp::List) => {
                lemma_marks_take(op, n - 1);
                lemma_marks_push(op.take(n - 1), s.op_stack.last());
                p
            },
            FrameView::VmOp(VmOp::VmStatus) => {
                lemma_marks_push(op, s.op_stack[n]);
                lemma_marks_push(op.push(s.op_stack[n]), s.op_stack[n + 1]);
                p
            },
            FrameView::UnaryOp(_) => {
                assert(s.op_stack =~= op.drop_last().push(s.op_stack.last()));
                lemma_marks_take(op, n - 1);
                assert(op.take(n - 1) =~= op.drop_last());
                lemma_marks_push(op.drop_last(), s.op_stack.last());
                p
            },
            FrameView::BinaryOp(_) => {
                assert(s.op_stack =~= op.take(n - 2).push(s.op_stack.last()));
                lemma_marks_take(op, n - 2);
                lemma_marks_push(op.take(n - 2), s.op_stack.last());
                p
            },
            FrameView::StackOp(_) => {
                p
            },
            FrameView::NaryOp(nary_op) => {
                let m = n - nary_op.arity();
                let left = nary(nary_op, op.subrange(m, n), base.store)->Ok_0.0;
                assert(markless(left));
                lemma_marks_take(op, m);
                lemma_marks_add(op.take(m), left);
                p
            },
            FrameView::Passive(Datum::Mark) => {
                lemma_marks_push(op, frame);
                p + 1
            },
            _ => {
                lemma_marks_push(op, frame);
                p
            },
        }
    }
}

/// Whether every frame is plain.
pub open spec fn all_plain(frames: Seq<FrameView>) -> bool {
    forall|i: int| 0 <= i < frames.len() ==> is_plain(#[trigger] frames[i])
}

/// The state with frames loaded on the exec stack, the first of them next
/// to be executed.
pub open spec fn loaded(pre: VmView, frames: Seq<FrameView>) -> VmView {
    VmView { exec_stack: pre.exec_stack + frames.reverse(), ..pre }
}

/// The run of a balanced text, step by step: after `k` steps the frames
/// from frame `k` on are left to execute, there are as many active marks as
/// open procedure literals, and what is left closes all that is open.
proof fn lemma_balanced_run(pre: VmView, frames: Seq<FrameView>, k: nat, s: VmView) -> (p: nat)
    requires
        pre.proc_depth == 0,
        markless(pre.op_stack),
        all_plain(frames),
        closes_all(frames, 0, 0, 0),
        k <= frames.len(),
        reaches(loaded(pre, frames), s, k),
    ensures
        s.exec_stack == pre.exec_stack + frames.skip(k as int).reverse(),
        active_marks(s.op_stack) == s.proc_depth,
        ground_marks(s.op_stack) <= p,
        closes_all(frames, k as int, p, s.proc_depth),
    decreases k,
{
    if k == 0 {
        lemma_markless(pre.op_stack);
        assert(frames.skip(0) =~= frames);
        0
    } else {
        let mid = choose|mid: VmView|
            reaches(loaded(pre, frames), mid, (k - 1) as nat) && #[trigger] step(
                mid,
                s,
                Ok(true),
            );
        let p = lemma_balanced_run(pre, frames, (k - 1) as nat, mid);
        let rest = frames.skip(k - 1);
        assert(rest.reverse().last() == frames[k - 1]);
        assert(rest.reverse().drop_last() =~= frames.skip(k as int).reverse());
        assert(mid.exec_stack.last() == frames[k - 1]);
        assert(mid.exec_stack.drop_last() =~= pre.exec_stack + frames.skip(k as int).reverse());
        assert(is_plain(frames[k - 1]));
        lemma_plain_step(mid, s, p)
    }
}

/// A balanced text leaves no mark behind.
///
/// Take a state in which no procedure literal is open and no mark is on the
/// operand stack, and a text of plain frames whose brackets are balanced.
/// If the frames of the text are executed one after the other and none of
/// them fails, then no mark is on the operand stack after the last of
/// them, no procedure literal is open, and the exec stack is what it was
/// before the text was loaded.
pub proof fn lemma_balanced_text_leaves_no_mark(
    pre: VmView,
    frames: Seq<FrameView>,
    post: VmView,
)
    requires
        pre.proc_depth == 0,
        markless(pre.op_stack),
        all_plain(frames),
        closes_all(frames, 0, 0, 0),
        reaches(loaded(pre, frames), post, frames.len()),
    ensures
        markless(post.op_stack),
        post.proc_depth == 0,
        post.exec_stack == pre.exec_stack,
{
    let p = lemma_balanced_run(pre, frames, frames.len(), post);
    assert(frames.skip(frames.len() as int).reverse() =~= Seq::<FrameView>::empty());
    assert(pre.exec_stack + Seq::<FrameView>::empty() =~= pre.exec_stack);
    lemma_markless(post.op_stack);
}

/// Whether a frame is passive data: a number, null, or a passive datum.
pub open spec fn is_literal(frame: FrameView) -> bool {
    frame is Num || frame is Null || frame is Passive
}

/// Whether every frame is passive data.
pub open spec fn all_literal(frames: Seq<FrameView>) -> bool {
    forall|i: int| 0 <= i < frames.len() ==> is_literal(#[trigger] frames[i])
}

/// Data stays as it is given: where no procedure literal is open, executing
/// frames of passive data leaves exactly those frames on the operand stack,
/// in their order, above what was there, and changes nothing else. The
/// operand stack holds what the input left there; nothing is added to it,
/// and nothing is held back.
pub proof fn lemma_data_stays(pre: VmView, frames: Seq<FrameView>, k: nat, post: VmView)
    requires
        pre.proc_depth == 0,
        all_literal(frames),
        k <= frames.len(),
        reaches(loaded(pre, frames), post, k),
    ensures
        post == (VmView {
            op_stack: pre.op_stack + frames.take(k as int),
            exec_stack: pre.exec_stack + frames.skip(k as int).reverse(),
            ..pre
        }),
    decreases k,
{
    if k == 0 {
        assert(frames.skip(0) =~= frames);
        assert(pre.op_stack + frames.take(0) =~= pre.op_stack);
    } else {
        let mid = choose|mid: VmView|
            reaches(loaded(pre, frames), mid, (k - 1) as nat) && #[trigger] step(
                mid,
                post,
                Ok(true),
            );
        lemma_data_stays(pre, frames, (k - 1) as nat, mid);
        let rest = frames.skip(k - 1);
        let frame = frames[k - 1];
        assert(rest.reverse().last() == frame);
        assert(rest.reverse().drop_last() =~= frames.skip(k as int).reverse());
        assert(mid.exec_stack.last() == frame);
        assert(mid.exec_stack.drop_last() =~= pre.exec_stack + frames.skip(k as int).reverse());
        assert(is_literal(frame));
        assert(frames.take(k as int) =~= frames.take(k - 1).push(frame));
        assert((pre.op_stack + frames.take(k - 1)).push(frame) =~= pre.op_stack + frames.take(
            k as int,
        ));
    }
}

} // verus!
