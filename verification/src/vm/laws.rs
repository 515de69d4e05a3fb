//! Laws of the engine.

use vstd::prelude::*;

use crate::error::ErrorView;
use crate::types::list::List;
use crate::types::savable::SavedView;
use crate::types::save::{
    descends, lemma_release_drops_descendants, lemma_stored_is_owned, live, stored, SlotView,
};
use crate::vm::frame::{Datum, FrameView};
use crate::vm::optypes::VmOp;
use crate::vm::reaches;
use crate::vm::rules::{
    collected, collecting, effect, found, last_mark, lemma_last_mark, restored, step, unfolded,
    vm_op,
};
use crate::vm::state::VmView;

verus! {

/// Whether a frame is data or an active datum: no operator, and so nothing
/// that makes frames.
pub open spec fn is_datum(frame: FrameView) -> bool {
    frame is Num || frame is Null || frame is Active || frame is Passive
}

/// Only operators make frames: after a step that executed a frame that is
/// no operator, every frame on the operand stack was there before the step
/// or is the frame that was executed. What is on the operand stack is what
/// the input left there or what an operator produced; nothing else gets
/// there.
pub proof fn lemma_only_operators_make_frames(pre: VmView, post: VmView, j: int)
    requires
        pre.exec_stack.len() > 0,
        is_datum(pre.exec_stack.last()),
        step(pre, post, Ok(true)),
        0 <= j < post.op_stack.len(),
    ensures
        post.op_stack[j] == pre.exec_stack.last() || (j < pre.op_stack.len() && post.op_stack[j]
            == pre.op_stack[j]),
{
}

/// Closing a savebox drops what was made while it was open: a list that
/// procedure or list brackets made after `save` answers `Dropped` to every
/// operation, whatever its arguments, after the `restore` that closes that
/// savebox, and so does every view of a slot that descends from the slot of
/// the savebox.
pub proof fn lemma_restore_drops(
    pre: VmView,
    list: List,
    index: usize,
    frame: FrameView,
    start: usize,
    len: usize,
)
    requires
        pre.save_stack.len() > 1,
        0 < pre.save_stack.last().parent < pre.store.len(),
        list.parent < pre.store.len(),
        descends(pre.store, list.parent as int, pre.save_stack.last().parent as int),
    ensures
        restored(pre) is Some,
        list.len_spec(restored(pre)->Some_0.store) == Err::<usize, ErrorView>(ErrorView::Dropped),
        list.get_spec(restored(pre)->Some_0.store, index) == Err::<FrameView, ErrorView>(
            ErrorView::Dropped,
        ),
        list.put_spec(restored(pre)->Some_0.store, index, frame) == Err::<
            Seq<SlotView>,
            ErrorView,
        >(ErrorView::Dropped),
        list.range_spec(restored(pre)->Some_0.store, start, len) == Err::<List, ErrorView>(
            ErrorView::Dropped,
        ),
{
    lemma_release_drops_descendants(pre.store, pre.save_stack.last().parent, list.parent);
}

/// What is made in the current savebox descends from it: the list that
/// `mklist`, `mkproc` or `list` makes lives in a slot that the current
/// savebox owns.
pub proof fn lemma_collected_is_owned(pre: VmView, mark: FrameView, active: bool)
    requires
        collected(pre, mark, active) is Ok,
        pre.store.len() < usize::MAX,
    ensures
        descends(
            collected(pre, mark, active)->Ok_0.store,
            pre.store.len() as int,
            pre.save_stack.last().parent as int,
        ),
        live(collected(pre, mark, active)->Ok_0.store, pre.store.len() as usize),
{
    let frames = pre.op_stack.subrange(
        last_mark(pre.op_stack, mark) + 1,
        pre.op_stack.len() as int,
    );
    lemma_stored_is_owned(pre.store, pre.save_stack.last().parent, SavedView::List(frames));
}

/// The frames to execute, last first, after `bottom`: `first` is the next to
/// execute, and `rest` follows it.
proof fn lemma_agenda(bottom: Seq<FrameView>, first: FrameView, rest: Seq<FrameView>)
    ensures
        (bottom + (seq![first] + rest).reverse()).len() > 0,
        (bottom + (seq![first] + rest).reverse()).last() == first,
        (bottom + (seq![first] + rest).reverse()).drop_last() == bottom + rest.reverse(),
{
    let all = seq![first] + rest;
    assert(all.reverse().last() == first);
    assert((bottom + all.reverse()).drop_last() =~= bottom + rest.reverse());
}

/// The frames of a procedure literal: the mark that `{` reads as, the frames
/// of the body, and the operator that `}` reads as.
pub open spec fn literal(body: Seq<FrameView>) -> Seq<FrameView> {
    seq![FrameView::Active(Datum::Mark)] + body + seq![FrameView::VmOp(VmOp::MkProc)]
}

/// The state after the frames of a procedure literal have been loaded.
pub open spec fn literal_loaded(pre: VmView, body: Seq<FrameView>) -> VmView {
    VmView { exec_stack: pre.exec_stack + literal(body).reverse(), ..pre }
}

/// The list that a procedure literal with the frames `body` makes in the
/// state `pre`: the whole of a new slot.
pub open spec fn literal_list(pre: VmView, body: Seq<FrameView>) -> List {
    List { parent: pre.store.len() as usize, start: 0, len: body.len() as usize }
}

/// The state after a procedure literal has been executed: the current
/// savebox owns a new slot with the frames of the body, and the active list
/// of that slot is on the operand stack.
pub open spec fn literal_made(pre: VmView, body: Seq<FrameView>) -> VmView {
    VmView {
        op_stack: pre.op_stack.push(FrameView::Active(Datum::List(literal_list(pre, body)))),
        store: stored(pre.store, pre.save_stack.last().parent, SavedView::List(body)),
        ..pre
    }
}

/// The state while the body of a procedure literal is being collected:
/// `k` frames of it are on the operand stack, above the mark.
pub open spec fn literal_open(pre: VmView, body: Seq<FrameView>, k: int) -> VmView {
    VmView {
        op_stack: pre.op_stack.push(FrameView::Active(Datum::Mark)) + body.take(k),
        exec_stack: pre.exec_stack + (body.skip(k) + seq![FrameView::VmOp(VmOp::MkProc)]).reverse(),
        proc_depth: 1,
        ..pre
    }
}

/// Whether a body holds the start or the end of a procedure literal of its
/// own.
pub open spec fn is_flat(body: Seq<FrameView>) -> bool {
    forall|i: int|
        0 <= i < body.len() ==> #[trigger] body[i] != FrameView::Active(Datum::Mark) && body[i]
            != FrameView::VmOp(VmOp::MkProc)
}

/// Collecting the body of a procedure literal: after the mark and `k` frames
/// of the body have been executed, they are on the operand stack, and no
/// other state is reached.
proof fn lemma_literal_open(pre: VmView, body: Seq<FrameView>, k: int, post: VmView)
    requires
        pre.proc_depth == 0,
        is_flat(body),
        0 <= k <= body.len(),
    ensures
        reaches(literal_loaded(pre, body), literal_open(pre, body, k), (k + 1) as nat),
        reaches(literal_loaded(pre, body), post, (k + 1) as nat) ==> post == literal_open(
            pre,
            body,
            k,
        ),
    decreases k,
{
    let loaded = literal_loaded(pre, body);
    let mark = FrameView::Active(Datum::Mark);
    let close = FrameView::VmOp(VmOp::MkProc);
    if k == 0 {
        assert(literal(body) =~= seq![mark] + (body + seq![close]));
        lemma_agenda(pre.exec_stack, mark, body + seq![close]);
        let open = literal_open(pre, body, 0);
        assert(body.skip(0) =~= body);
        assert(pre.op_stack.push(mark) + body.take(0) =~= pre.op_stack.push(mark));
        assert(step(loaded, open, Ok(true)));
        assert(reaches(loaded, loaded, 0));
        assert(reaches(loaded, open, 1));
        if reaches(loaded, post, 1) {
            let mid = choose|mid: VmView|
                reaches(loaded, mid, 0) && #[trigger] step(mid, post, Ok(true));
            assert(mid == loaded);
            assert(post == open);
        }
    } else {
        let before = literal_open(pre, body, k - 1);
        let open = literal_open(pre, body, k);
        let frame = body[k - 1];
        assert(body.skip(k - 1) + seq![close] =~= seq![frame] + (body.skip(k) + seq![close]));
        lemma_agenda(pre.exec_stack, frame, body.skip(k) + seq![close]);
        assert(before.op_stack.push(frame) =~= open.op_stack) by {
            assert(body.take(k) =~= body.take(k - 1).push(frame));
        }
        assert(step(before, open, Ok(true)));
        lemma_literal_open(pre, body, k - 1, before);
        assert(reaches(loaded, open, (k + 1) as nat));
        if reaches(loaded, post, (k + 1) as nat) {
            let mid = choose|mid: VmView|
                reaches(loaded, mid, k as nat) && #[trigger] step(mid, post, Ok(true));
            lemma_literal_open(pre, body, k - 1, mid);
            assert(mid == before);
            assert(post == open);
        }
    }
}

/// The procedure literal law, first part: executing `{`, the frames of a
/// body and `}` makes an active list of those frames, and pushes it.
///
/// From a state in which no procedure literal is open, the frames of a
/// literal whose body holds no literal of its own take one step each; they
/// reach the state in which the current savebox owns a new slot with the
/// frames of the body and the active list of that slot is on top of the
/// operand stack, and they reach no other state.
pub proof fn lemma_procedure_literal(pre: VmView, body: Seq<FrameView>, post: VmView)
    requires
        pre.proc_depth == 0,
        pre.save_stack.len() > 0,
        pre.save_stack.last().save(pre.store) is Some,
        is_flat(body),
    ensures
        reaches(literal_loaded(pre, body), literal_made(pre, body), body.len() + 2),
        reaches(literal_loaded(pre, body), post, body.len() + 2) ==> post == literal_made(
            pre,
            body,
        ),
{
    let n = body.len() as int;
    let loaded = literal_loaded(pre, body);
    let open = literal_open(pre, body, n);
    let made = literal_made(pre, body);
    let mark = FrameView::Active(Datum::Mark);
    let close = FrameView::VmOp(VmOp::MkProc);
    lemma_literal_open(pre, body, n, open);
    assert(body.skip(n) =~= Seq::<FrameView>::empty());
    assert(body.take(n) =~= body);
    assert(body.skip(n) + seq![close] =~= seq![close] + Seq::<FrameView>::empty());
    lemma_agenda(pre.exec_stack, close, Seq::<FrameView>::empty());
    assert(pre.exec_stack + Seq::<FrameView>::empty().reverse() =~= pre.exec_stack);
    let base = VmView { exec_stack: pre.exec_stack, ..open };
    let m = pre.op_stack.len() as int;
    assert(base.op_stack[m] == mark);
    lemma_last_mark(base.op_stack, mark, m);
    assert(base.op_stack.subrange(m + 1, base.op_stack.len() as int) =~= body);
    assert(base.op_stack.take(m) =~= pre.op_stack);
    assert(collected(base, mark, true) == Ok::<VmView, ErrorView>(
        VmView { proc_depth: 1, ..made },
    ));
    assert(vm_op(base, VmOp::MkProc) == Ok::<VmView, ErrorView>(made));
    assert(effect(base, close, made, None));
    assert(step(open, made, Ok(true)));
    assert(reaches(loaded, made, (n + 2) as nat));
    if reaches(loaded, post, (n + 2) as nat) {
        let mid = choose|mid: VmView|
            reaches(loaded, mid, (n + 1) as nat) && #[trigger] step(mid, post, Ok(true));
        lemma_literal_open(pre, body, n, mid);
        assert(mid == open);
        assert(post == made);
    }
}

/// The state with other frames in place of the `cut` deepest frames of its
/// exec stack.
pub open spec fn rebased(s: VmView, bottom: Seq<FrameView>, cut: int) -> VmView {
    VmView { exec_stack: bottom + s.exec_stack.skip(cut), ..s }
}

/// Executing a frame does not look below the top of the exec stack: what it
/// leaves of the exec stack as it found it stays as it is, and it does the
/// same whatever lies there.
pub proof fn lemma_effect_is_local(
    base: VmView,
    frame: FrameView,
    post: VmView,
    out: Option<ErrorView>,
    bottom: Seq<FrameView>,
    cut: int,
)
    requires
        effect(base, frame, post, out),
        0 <= cut <= base.exec_stack.len(),
    ensures
        post.exec_stack.len() >= cut,
        post.exec_stack.take(cut) == base.exec_stack.take(cut),
        effect(rebased(base, bottom, cut), frame, rebased(post, bottom, cut), out),
{
    let b = rebased(base, bottom, cut);
    let p = rebased(post, bottom, cut);
    let low = base.exec_stack.take(cut);
    if frame == FrameView::Active(Datum::Mark) || collecting(base, frame) {
        assert(post.exec_stack.take(cut) =~= low);
    } else {
        match frame {
            FrameView::Active(Datum::List(list)) => {
                match unfolded(base, list) {
                    Ok(after) => {
                        let len = list.len_spec(base.store)->Ok_0;
                        if len == 0 {
                            assert(post.exec_stack.take(cut) =~= low);
                        } else {
                            let head = list.get_spec(base.store, 0)->Ok_0;
                            if len > 1 {
                                let tail = FrameView::Active(
                                    Datum::List(
                                        list.range_spec(base.store, 1, (len - 1) as usize)->Ok_0,
                                    ),
                                );
                                assert(post.exec_stack == base.exec_stack.push(tail).push(head));
                                assert(post.exec_stack.take(cut) =~= low);
                                assert(p.exec_stack =~= b.exec_stack.push(tail).push(head));
                            } else {
                                assert(post.exec_stack == base.exec_stack.push(head));
                                assert(post.exec_stack.take(cut) =~= low);
                                assert(p.exec_stack =~= b.exec_stack.push(head));
                            }
                        }
                    },
                    Err(_) => {
                        assert(post.exec_stack.take(cut) =~= low);
                    },
                }
            },
            FrameView::Active(Datum::Name(name)) => {
                match found(base.dict_stack, base.store, name, 0) {
                    Ok(bound) => {
                        assert(post.exec_stack.take(cut) =~= low);
                        assert(p.exec_stack =~= b.exec_stack.push(bound));
                    },
                    Err(_) => {
                        assert(post.exec_stack.take(cut) =~= low);
                    },
                }
            },
            FrameView::Active(Datum::String(text)) => {
                let n = base.exec_stack.len() as int;
                assert(post.exec_stack.take(cut) =~= post.exec_stack.take(n).take(cut));
                assert(post.exec_stack.take(cut) =~= low);
                if out is None {
                    let m = b.exec_stack.len() as int;
                    assert(p.exec_stack.take(m) =~= b.exec_stack) by {
                        assert forall|i: int| 0 <= i < m implies p.exec_stack[i]
                            == b.exec_stack[i] by {
                            if i >= bottom.len() {
                                assert(post.exec_stack.take(n)[i - bottom.len() + cut]
                                    == base.exec_stack[i - bottom.len() + cut]);
                            }
                        }
                    }
                    assert(p.exec_stack.skip(m) =~= post.exec_stack.skip(n));
                } else {
                    assert(p.exec_stack =~= b.exec_stack);
                }
            },
            FrameView::VmOp(op) => {
                if base.op_stack.len() >= op.arity() {
                    match vm_op(base, op) {
                        Ok(after) => {
                            assert(post.exec_stack.take(cut) =~= low);
                            if op == VmOp::Exec {
                                let top = base.op_stack[base.op_stack.len() - 1];
                                assert(p.exec_stack =~= b.exec_stack.push(top));
                            }
                            assert(vm_op(b, op) == Ok::<VmView, ErrorView>(p));
                        },
                        Err(_) => {
                            assert(post.exec_stack.take(cut) =~= low);
                        },
                    }
                } else {
                    assert(post.exec_stack.take(cut) =~= low);
                }
            },
            _ => {
                assert(post.exec_stack.take(cut) =~= low);
            },
        }
    }
}

/// A step does not look below the top of the exec stack: with other frames
/// in place of frames below the top, it does the same.
pub proof fn lemma_step_is_local(
    pre: VmView,
    post: VmView,
    out: Result<bool, ErrorView>,
    bottom: Seq<FrameView>,
    cut: int,
)
    requires
        step(pre, post, out),
        0 <= cut < pre.exec_stack.len(),
    ensures
        out is Ok ==> post.exec_stack.len() >= cut && post.exec_stack.take(cut)
            == pre.exec_stack.take(cut) && step(
            rebased(pre, bottom, cut),
            rebased(post, bottom, cut),
            out,
        ),
        out is Err ==> step(rebased(pre, bottom, cut), post, out),
{
    let base = VmView { exec_stack: pre.exec_stack.drop_last(), ..pre };
    let frame = pre.exec_stack.last();
    let re = rebased(pre, bottom, cut);
    let re_base = VmView { exec_stack: re.exec_stack.drop_last(), ..re };
    assert(re.exec_stack.last() == frame);
    assert(re_base == rebased(base, bottom, cut)) by {
        assert(re.exec_stack.drop_last() =~= bottom + base.exec_stack.skip(cut));
    }
    assert(pre.exec_stack.take(cut) =~= base.exec_stack.take(cut));
    match out {
        Ok(_) => {
            lemma_effect_is_local(base, frame, post, None, bottom, cut);
        },
        Err(error) => {
            let failed = VmView { exec_stack: base.exec_stack, ..post };
            lemma_effect_is_local(base, frame, failed, Some(error), bottom, cut);
            let re_failed = VmView { exec_stack: re_base.exec_stack, ..post };
            assert(rebased(failed, bottom, cut) == re_failed);
        },
    }
}

/// The state in which the frames of a live list stand on the exec stack, the
/// first of them on top, in place of the active list at `place`: the state
/// in which the frames of the list are to be executed directly.
pub open spec fn unrolled(s: VmView, list: List, place: int) -> VmView {
    VmView {
        exec_stack: s.exec_stack.take(place) + list.frames(s.store)->Some_0.reverse()
            + s.exec_stack.skip(place + 1),
        ..s
    }
}

/// The list of the frames of a list after its first.
pub open spec fn rest_of(list: List) -> List {
    List { parent: list.parent, start: (list.start + 1) as usize, len: (list.len - 1) as usize }
}

/// The procedure literal law, second part, when the list is next to be
/// executed: the step that executes an active list changes nothing in the
/// state in which its frames are to be executed directly.
///
/// The step does not fail. A list of no frame or one is gone from the exec
/// stack after it, and the state is the one in which its frames stand there
/// instead. Of a longer list the first frame is on top of the exec stack and
/// the list of the rest is below it, and with the frames of the rest in its
/// place the state is again the one in which all frames of the list stand
/// there.
pub proof fn lemma_list_unfolds(s: VmView, list: List, post: VmView, out: Result<bool, ErrorView>)
    requires
        s.proc_depth == 0,
        s.exec_stack.len() > 0,
        s.exec_stack.last() == FrameView::Active(Datum::List(list)),
        list.frames(s.store) is Some,
        step(s, post, out),
    ensures
        out == Ok::<bool, ErrorView>(true),
        list.len <= 1 ==> post == unrolled(s, list, s.exec_stack.len() - 1),
        list.len > 1 ==> {
            &&& post.exec_stack.len() == s.exec_stack.len() + 1
            &&& post.exec_stack[s.exec_stack.len() - 1] == FrameView::Active(
                Datum::List(rest_of(list)),
            )
            &&& rest_of(list).frames(post.store) is Some
            &&& unrolled(post, rest_of(list), s.exec_stack.len() - 1) == unrolled(
                s,
                list,
                s.exec_stack.len() - 1,
            )
        },
{
    let place = s.exec_stack.len() - 1;
    let base = VmView { exec_stack: s.exec_stack.drop_last(), ..s };
    let body = list.frames(s.store)->Some_0;
    let all = list.backing(s.store)->Some_0;
    assert(s.exec_stack.take(place) =~= base.exec_stack);
    assert(s.exec_stack.skip(place + 1) =~= Seq::<FrameView>::empty());
    assert(unfolded(base, list) is Ok);
    let target = unrolled(s, list, place);
    if list.len == 0 {
        assert(body.reverse() =~= Seq::<FrameView>::empty());
        assert(target.exec_stack =~= base.exec_stack);
    } else if list.len == 1 {
        assert(body.reverse() =~= seq![all[list.start as int]]);
        assert(target.exec_stack =~= base.exec_stack.push(all[list.start as int]));
    } else {
        let rest = rest_of(list);
        assert(list.range_spec(base.store, 1, (list.len - 1) as usize) == Ok::<List, ErrorView>(
            rest,
        ));
        let tail = rest.frames(post.store)->Some_0;
        assert(tail =~= body.skip(1));
        assert(body.reverse() =~= tail.reverse().push(body[0]));
        assert(post.exec_stack.take(place) =~= base.exec_stack);
        assert(post.exec_stack.skip(place + 1) =~= seq![body[0]]);
        assert(unrolled(post, rest, place).exec_stack =~= target.exec_stack);
    }
}

/// The procedure literal law, second part, while frames above the list are
/// executed: a step that leaves the frames of the list as they are does to
/// the state in which those frames are to be executed directly what it does
/// to the state in which the list is to be executed.
///
/// With the first part and with [`lemma_list_unfolds`]: executing the active
/// list that a procedure literal made and executing the frames of its body
/// directly go through the same states, step for step, as long as no step
/// puts a frame into the list.
pub proof fn lemma_list_keeps_step(
    s: VmView,
    list: List,
    place: int,
    post: VmView,
    out: Result<bool, ErrorView>,
)
    requires
        0 <= place < s.exec_stack.len() - 1,
        s.exec_stack[place] == FrameView::Active(Datum::List(list)),
        list.frames(s.store) is Some,
        list.frames(post.store) == list.frames(s.store),
        step(s, post, out),
    ensures
        out is Ok ==> post.exec_stack.len() > place && post.exec_stack[place]
            == FrameView::Active(Datum::List(list)) && step(
            unrolled(s, list, place),
            unrolled(post, list, place),
            out,
        ),
        out is Err ==> step(unrolled(s, list, place), post, out),
{
    let body = list.frames(s.store)->Some_0;
    let bottom = s.exec_stack.take(place) + body.reverse();
    lemma_step_is_local(s, post, out, bottom, place + 1);
    assert(rebased(s, bottom, place + 1) == unrolled(s, list, place));
    if out is Ok {
        assert(post.exec_stack.take(place + 1)[place] == s.exec_stack.take(place + 1)[place]);
        assert(post.exec_stack.take(place) =~= post.exec_stack.take(place + 1).take(place));
        assert(s.exec_stack.take(place) =~= s.exec_stack.take(place + 1).take(place));
        assert(rebased(post, bottom, place + 1) == unrolled(post, list, place));
    }
}

/// The view of the frames of a list from its frame `k` on.
pub open spec fn rest_from(list: List, k: int) -> List {
    List { parent: list.parent, start: (list.start + k) as usize, len: (list.len - k) as usize }
}

/// Whether a state leaves a run of a list undisturbed: the slot of the
/// list holds the frames `all`, and no procedure literal is open.
pub open spec fn keeps(s: VmView, list: List, all: Seq<FrameView>) -> bool {
    list.backing(s.store) == Some(all) && s.proc_depth == 0
}

/// The state `post` is reached from the state `pre` by `n` steps, none of
/// which failed or found the exec stack empty, and every state on the way,
/// `pre` and `post` among them, leaves the run of `list` undisturbed.
pub open spec fn reaches_quietly(
    pre: VmView,
    post: VmView,
    n: nat,
    list: List,
    all: Seq<FrameView>,
) -> bool
    decreases n,
{
    if n == 0 {
        post == pre && keeps(pre, list, all)
    } else {
        exists|mid: VmView|
            reaches_quietly(pre, mid, (n - 1) as nat, list, all) && #[trigger] step(
                mid,
                post,
                Ok(true),
            ) && keeps(post, list, all)
    }
}

/// Whether the state `b` is the state `a` with the frames that are left of
/// `list` in place of the list: the two are the same state once the list is
/// gone from the exec stack, and until then `a` holds, at `place` of its
/// exec stack, the active list of the frames from some frame on, and `b`
/// holds those frames there.
pub open spec fn linked(a: VmView, b: VmView, list: List, place: int) -> bool {
    a == b || exists|k: int|
        0 <= k <= list.len && 0 <= place < a.exec_stack.len() && a.exec_stack[place]
            == FrameView::Active(Datum::List(#[trigger] rest_from(list, k))) && b == unrolled(
            a,
            rest_from(list, k),
            place,
        )
}

/// Every state of a quiet run leaves the run of the list undisturbed.
proof fn lemma_quiet_keeps(pre: VmView, post: VmView, n: nat, list: List, all: Seq<FrameView>)
    requires
        reaches_quietly(pre, post, n, list, all),
    ensures
        keeps(post, list, all),
{
}

/// One more step of a quiet run: the run of the frames follows it, with a
/// step of its own or with none.
proof fn lemma_linked_step(
    mid: VmView,
    bmid: VmView,
    a: VmView,
    list: List,
    all: Seq<FrameView>,
    place: int,
)
    requires
        linked(mid, bmid, list, place),
        keeps(mid, list, all),
        keeps(a, list, all),
        step(mid, a, Ok(true)),
    ensures
        linked(a, bmid, list, place) || exists|b: VmView|
            #[trigger] step(bmid, b, Ok(true)) && linked(a, b, list, place),
{
    if mid == bmid {
        assert(step(bmid, a, Ok(true)) && linked(a, a, list, place));
    } else {
        let k = choose|k: int|
            0 <= k <= list.len && 0 <= place < mid.exec_stack.len() && mid.exec_stack[place]
                == FrameView::Active(Datum::List(#[trigger] rest_from(list, k))) && bmid
                == unrolled(mid, rest_from(list, k), place);
        let rest = rest_from(list, k);
        assert(rest.backing(mid.store) == Some(all));
        assert(rest.backing(a.store) == Some(all));
        if place == mid.exec_stack.len() - 1 {
            lemma_list_unfolds(mid, rest, a, Ok(true));
            if rest.len > 1 {
                assert(rest_of(rest) == rest_from(list, k + 1));
                assert(linked(a, bmid, list, place));
            } else {
                assert(a == bmid);
            }
        } else {
            lemma_list_keeps_step(mid, rest, place, a, Ok(true));
            let b = unrolled(a, rest, place);
            assert(step(bmid, b, Ok(true)));
            assert(linked(a, b, list, place));
        }
    }
}

/// The procedure literal law, second part, for whole runs: executing an
/// active list goes where executing its frames directly goes.
///
/// Take a state in which a live list is next to be executed and no
/// procedure literal is open, and the state that has the frames of the list
/// on its exec stack in place of the list. Whatever state a run from the
/// first reaches in `n` steps, a run from the second reaches the state
/// linked to it, in no more steps: the same state, or, while frames of the
/// list are still to come, the state with those frames in place of the list
/// of them. This holds of every run that leaves the list undisturbed: no
/// step puts a frame into the slot of the list, and none leaves a procedure
/// literal open.
pub proof fn lemma_procedure_runs_like_its_frames(
    a0: VmView,
    list: List,
    all: Seq<FrameView>,
    n: nat,
    a: VmView,
)
    requires
        a0.exec_stack.len() > 0,
        a0.exec_stack.last() == FrameView::Active(Datum::List(list)),
        reaches_quietly(a0, a, n, list, all),
    ensures
        exists|m: nat, b: VmView|
            m <= n && #[trigger] reaches(unrolled(a0, list, a0.exec_stack.len() - 1), b, m)
                && linked(a, b, list, a0.exec_stack.len() - 1),
    decreases n,
{
    let place = a0.exec_stack.len() - 1;
    let b0 = unrolled(a0, list, place);
    if n == 0 {
        assert(rest_from(list, 0) == list);
        assert(linked(a0, b0, list, place));
        assert(reaches(b0, b0, 0));
    } else {
        let mid = choose|mid: VmView|
            reaches_quietly(a0, mid, (n - 1) as nat, list, all) && #[trigger] step(
                mid,
                a,
                Ok(true),
            ) && keeps(a, list, all);
        lemma_procedure_runs_like_its_frames(a0, list, all, (n - 1) as nat, mid);
        lemma_quiet_keeps(a0, mid, (n - 1) as nat, list, all);
        let (m, bmid) = choose|m: nat, b: VmView|
            m <= n - 1 && #[trigger] reaches(b0, b, m) && linked(mid, b, list, place);
        lemma_linked_step(mid, bmid, a, list, all, place);
        if linked(a, bmid, list, place) {
            assert(m <= n && reaches(b0, bmid, m) && linked(a, bmid, list, place));
        } else {
            let b = choose|b: VmView|
                #[trigger] step(bmid, b, Ok(true)) && linked(a, b, list, place);
            assert(reaches(b0, b, m + 1));
            assert(m + 1 <= n && reaches(b0, b, m + 1) && linked(a, b, list, place));
        }
    }
}

/// The two runs end alike. Where the run of the list has come to an end,
/// because the exec stack is empty or because a step failed, the run of the
/// frames comes to the same end in the same state: states that are linked
/// answer the next step alike.
pub proof fn lemma_linked_ends_alike(
    a: VmView,
    b: VmView,
    list: List,
    all: Seq<FrameView>,
    place: int,
    post: VmView,
    out: Result<bool, ErrorView>,
)
    requires
        linked(a, b, list, place),
        keeps(a, list, all),
        step(a, post, out),
        out != Ok::<bool, ErrorView>(true),
    ensures
        step(b, post, out),
{
    if a != b {
        let k = choose|k: int|
            0 <= k <= list.len && 0 <= place < a.exec_stack.len() && a.exec_stack[place]
                == FrameView::Active(Datum::List(#[trigger] rest_from(list, k))) && b == unrolled(
                a,
                rest_from(list, k),
                place,
            );
        let rest = rest_from(list, k);
        assert(rest.backing(a.store) == Some(all));
        if place == a.exec_stack.len() - 1 {
            lemma_list_unfolds(a, rest, post, out);
        } else {
            let base = VmView { exec_stack: a.exec_stack.drop_last(), ..a };
            assert(post.store == a.store);
            lemma_list_keeps_step(a, rest, place, post, out);
        }
    }
}

/// The state after a procedure literal has been made and handed to `exec`:
/// the active list of the frames of the body is next to be executed.
pub open spec fn literal_scheduled(pre: VmView, body: Seq<FrameView>) -> VmView {
    VmView {
        exec_stack: pre.exec_stack.push(FrameView::Active(Datum::List(literal_list(pre, body)))),
        store: stored(pre.store, pre.save_stack.last().parent, SavedView::List(body)),
        ..pre
    }
}

/// The procedure literal law, both parts together. Executing `{`, the
/// frames of a body, `}` and `exec` takes one step for each of them and
/// leaves the list of the body next to be executed; with the frames of the
/// list in its place, that is the state in which the frames of the body are
/// next to be executed, in their order, with the operand stack as it was
/// before the literal. From there on [`lemma_procedure_runs_like_its_frames`]
/// and [`lemma_linked_ends_alike`] say that the run of the list and the run
/// of the frames go the same way and end alike.
pub proof fn lemma_literal_exec(pre: VmView, body: Seq<FrameView>)
    requires
        pre.proc_depth == 0,
        pre.save_stack.len() > 0,
        pre.save_stack.last().save(pre.store) is Some,
        pre.store.len() < usize::MAX,
        body.len() <= usize::MAX,
        is_flat(body),
    ensures
        reaches(
            VmView {
                exec_stack: pre.exec_stack + (literal(body) + seq![
                    FrameView::VmOp(VmOp::Exec),
                ]).reverse(),
                ..pre
            },
            literal_scheduled(pre, body),
            body.len() + 3,
        ),
        literal_list(pre, body).frames(literal_scheduled(pre, body).store) == Some(body),
        unrolled(literal_scheduled(pre, body), literal_list(pre, body), pre.exec_stack.len() as int)
            == (VmView {
            exec_stack: pre.exec_stack + body.reverse(),
            ..literal_scheduled(pre, body)
        }),
        literal_scheduled(pre, body).op_stack == pre.op_stack,
        literal_scheduled(pre, body).proc_depth == 0,
{
    let exec = FrameView::VmOp(VmOp::Exec);
    let under = VmView { exec_stack: pre.exec_stack.push(exec), ..pre };
    let start = VmView {
        exec_stack: pre.exec_stack + (literal(body) + seq![exec]).reverse(),
        ..pre
    };
    assert((literal(body) + seq![exec]).reverse() =~= seq![exec] + literal(body).reverse());
    assert(start.exec_stack =~= under.exec_stack + literal(body).reverse());
    assert(start == literal_loaded(under, body));
    let made = literal_made(under, body);
    lemma_procedure_literal(under, body, made);
    let scheduled = literal_scheduled(pre, body);
    let list = literal_list(pre, body);
    let base = VmView { exec_stack: pre.exec_stack, ..made };
    assert(made.exec_stack.drop_last() =~= pre.exec_stack);
    assert(base.op_stack.take(base.op_stack.len() - 1) =~= pre.op_stack);
    assert(vm_op(base, VmOp::Exec) == Ok::<VmView, ErrorView>(scheduled));
    assert(step(made, scheduled, Ok(true)));
    assert(reaches(start, scheduled, (body.len() + 3) as nat));
    let all = list.backing(scheduled.store)->Some_0;
    assert(all == body);
    assert(body.subrange(0, body.len() as int) =~= body);
    let place = pre.exec_stack.len() as int;
    assert(scheduled.exec_stack.take(place) =~= pre.exec_stack);
    assert(scheduled.exec_stack.skip(place + 1) =~= Seq::<FrameView>::empty());
    assert(unrolled(scheduled, list, place).exec_stack =~= pre.exec_stack + body.reverse());
}

} // verus!
