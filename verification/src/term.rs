//! Running source text on an engine.

use vstd::prelude::*;

use crate::error::{Error, ErrorView};
use crate::numeric::float::FloatUnit;
use crate::reader::parsed;
use crate::vm::frame::FrameView;
use crate::vm::state::VmView;
use crate::vm::{ran, Run, Vm};

verus! {

/// Whether the state `post` and the answer `out` are what reading and
/// executing a text make of the state `pre`: an error of the text, with
/// nothing executed, or the end of a run of its frames. `None` is the clean
/// ending that `quit` asks for.
pub open spec fn executed(
    pre: VmView,
    text: Seq<char>,
    budget: nat,
    post: VmView,
    out: Option<Result<Option<Option<FrameView>>, ErrorView>>,
) -> bool {
    ||| out matches Some(Err(error)) && parsed(text, Err(error)) && post == (VmView {
        names: post.names,
        ..pre
    })
    ||| exists|frames: Seq<FrameView>, names: Set<Seq<char>>| #[trigger]
        parsed(text, Ok(frames)) && ran(
            VmView { exec_stack: pre.exec_stack + frames.reverse(), names, ..pre },
            post,
            budget,
            match out {
                Some(ended) => ended,
                None => Err(ErrorView::Quit),
            },
        ) && #[trigger] pre.names.subset_of(names) && !(out matches Some(Err(ErrorView::Quit)))
}

/// Reads a text and executes its frames, for at most `budget` steps.
///
/// `None` if the text quit; else how the run ended, or the error that ended
/// it or that the text holds.
pub fn exec_string<F: FloatUnit>(vm: &mut Vm<F>, string: String, budget: u64) -> (out: Option<
    Result<Run, Error>,
>)
    requires
        old(vm).wf(),
    ensures
        final(vm).wf(),
        executed(
            old(vm)@,
            string@,
            budget as nat,
            final(vm)@,
            match out {
                Some(Ok(Run::Done(Some(frame)))) => Some(Ok(Some(Some(frame@)))),
                Some(Ok(Run::Done(None))) => Some(Ok(Some(None))),
                Some(Ok(Run::Paused)) => Some(Ok(None)),
                Some(Err(error)) => Some(Err(error@)),
                None => None,
            },
        ),
{
    let frames = match vm.parse(string.as_str()) {
        Ok(frames) => frames,
        Err(err) => {
            return Some(Err(err));
        },
    };
    match vm.exec(frames, budget) {
        Ok(run) => Some(Ok(run)),
        Err(err) => {
            if err.is_quit() {
                None
            } else {
                Some(Err(err))
            }
        },
    }
}

} // verus!
