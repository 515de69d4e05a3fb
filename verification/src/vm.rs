//! The engine: an operand stack, an exec stack, a save stack, a dict stack,
//! an intern table, and the step that takes a frame off the exec stack and
//! executes it.

use std::collections::VecDeque;
use vstd::prelude::*;

use crate::error::{Error, ErrorView};
use crate::numeric::float::FloatUnit;
use crate::numeric::{Number, NumericValue};
use crate::reader::lex::lex;
use crate::reader::{has_floats, names_among, parse, parsed};
use crate::render::show_frame;
use crate::text::{push_str, string_of};
use crate::types::dict::Dict;
use crate::types::list::List;
use crate::types::name::{shared, InternTable, Name};
use crate::types::num::Num;
use crate::types::savable::SavedView;
use crate::types::save::{Save, SaveBox, SlotView, Store};
use crate::vm::frame::{views, Active, Datum, Frame, FrameView, Passive};
use crate::vm::naryops::from_num;
use crate::vm::optypes::{BinaryOp, NaryOp, StackOp, UnaryOp, VmOp};
use crate::vm::rules::{
    collected, effect, found, last_mark, lemma_last_mark, lemma_last_mark_is_last, prints,
    pushed, restored, saved, scheduled, stack_op, step, unfolded, vm_op,
};
use crate::vm::state::{
    active_marks, base_map, builtin_words, builtins, lemma_active_marks_bound,
    lemma_active_marks_split, lemma_no_active_marks, VmView,
};
use crate::vm::vminfo::{vmstatus, Vminfo};

pub mod balance;
pub mod binaryops;
pub mod frame;
pub mod laws;
pub mod naryops;
pub mod ops;
pub mod optypes;
pub mod rules;
pub mod stackops;
pub mod state;
pub mod unaryops;
pub mod vminfo;

verus! {

/// An engine, with the float unit of its host.
pub struct Vm<F: FloatUnit> {
    op_stack: Vec<Frame>,
    exec_stack: Vec<Frame>,
    save_stack: Vec<SaveBox>,
    dict_stack: VecDeque<Dict>,
    store: Store,
    vminfo: Vminfo,
    intern_table: InternTable,
    proc_depth: usize,
    output: Vec<String>,
    unit: F,
}

/// How a run ended without an error.
#[derive(Debug, Clone, PartialEq)]
pub enum Run {
    /// The exec stack is empty. The frame is the one on top of the operand
    /// stack, if the operand stack is not empty.
    Done(Option<Frame>),
    /// The budget is spent, and frames are left to execute.
    Paused,
}

/// The state `post` is reached from the state `pre` by `n` steps, none of
/// which failed or found the exec stack empty.
pub open spec fn reaches(pre: VmView, post: VmView, n: nat) -> bool
    decreases n,
{
    if n == 0 {
        post == pre
    } else {
        exists|mid: VmView| reaches(pre, mid, (n - 1) as nat) && #[trigger] step(mid, post, Ok(true))
    }
}

/// Whether the state `post` and the answer `out` are what a run of at most
/// `budget` steps makes of the state `pre`.
///
/// `Ok(Some(top))`: the exec stack ran empty within the budget, and `top` is
/// the frame on top of the operand stack, if there is one. `Ok(None)`: the
/// budget is spent on steps, and frames are left. `Err(error)`: after fewer
/// steps than the budget, a step failed with `error`.
pub open spec fn ran(
    pre: VmView,
    post: VmView,
    budget: nat,
    out: Result<Option<Option<FrameView>>, ErrorView>,
) -> bool {
    match out {
        Ok(Some(top)) => {
            &&& exists|n: nat| n <= budget && #[trigger] reaches(pre, post, n)
            &&& post.exec_stack.len() == 0
            &&& top == if post.op_stack.len() == 0 {
                None
            } else {
                Some(post.op_stack.last())
            }
        },
        Ok(None) => reaches(pre, post, budget) && post.exec_stack.len() > 0,
        Err(error) => exists|n: nat, mid: VmView|
            n < budget && #[trigger] reaches(pre, mid, n) && #[trigger] step(
                mid,
                post,
                Err(error),
            ),
    }
}

/// Whether `line` reports how a run of at most `budget` steps from the state
/// `pre` ended in the state `post`, with `out` the error if it failed.
pub open spec fn reported(
    pre: VmView,
    post: VmView,
    budget: nat,
    line: Seq<char>,
    out: Option<ErrorView>,
) -> bool {
    match out {
        Some(error) => ran(pre, post, budget, Err(error)) && line == "Error: "@ + error.message(),
        None => if post.exec_stack.len() > 0 {
            ran(pre, post, budget, Ok(None)) && line == "Paused"@
        } else if post.op_stack.len() == 0 {
            ran(pre, post, budget, Ok(Some(None))) && line == "Empty stack"@
        } else {
            ran(pre, post, budget, Ok(Some(Some(post.op_stack.last())))) && prints(
                post.store,
                "Result: "@,
                post.op_stack.last(),
                line,
            )
        },
    }
}

/// The contents of a sequence of lines.
pub open spec fn lines(output: Seq<String>) -> Seq<Seq<char>> {
    Seq::new(output.len(), |i: int| output[i]@)
}

impl<F: FloatUnit> View for Vm<F> {
    type V = VmView;

    closed spec fn view(&self) -> VmView {
        VmView {
            op_stack: views(self.op_stack@),
            exec_stack: views(self.exec_stack@),
            save_stack: self.save_stack@,
            dict_stack: self.dict_stack@,
            store: self.store@,
            names: self.intern_table@,
            proc_depth: self.proc_depth as nat,
            memory: (self.vminfo.max, self.vminfo.used),
            output: lines(self.output@),
        }
    }
}

/// The state of a new engine: empty stacks, the base savebox, and the
/// built-in dictionary in a slot that the base savebox owns.
pub open spec fn initial() -> VmView {
    VmView {
        op_stack: Seq::empty(),
        exec_stack: Seq::empty(),
        save_stack: seq![SaveBox { parent: 0 }],
        dict_stack: seq![Dict { parent: 1 }],
        store: seq![
            SlotView { owner: None, saved: Some(SavedView::Save(seq![1usize])) },
            SlotView {
                owner: Some(0usize),
                saved: Some(SavedView::Dict(builtins(), builtin_words())),
            },
        ],
        names: builtins().dom(),
        proc_depth: 0,
        memory: (-1i64, -1i64),
        output: Seq::empty(),
    }
}

impl<F: FloatUnit> Vm<F> {
    /// The invariant of the engine: its store and its intern table are well
    /// formed; the save stack starts with the base savebox, which is never
    /// popped; the dict stack is not empty; and there are no more open
    /// procedure literals than active marks on the operand stack.
    pub closed spec fn wf(&self) -> bool {
        &&& self.store.wf()
        &&& self.intern_table.wf()
        &&& self.save_stack.len() >= 1
        &&& self.save_stack[0] == (SaveBox { parent: 0 })
        &&& self.dict_stack@.len() >= 1
        &&& self.proc_depth <= active_marks(views(self.op_stack@))
    }

    /// What the invariant says of the state.
    pub proof fn lemma_wf(&self)
        requires
            self.wf(),
        ensures
            self@.save_stack.len() >= 1,
            self@.save_stack[0] == (SaveBox { parent: 0 }),
            self@.dict_stack.len() >= 1,
            self@.proc_depth <= active_marks(self@.op_stack),
            self@.store.len() >= 1,
    {
        self.store.lemma_wf();
    }

    /// A fresh engine, preloaded with the built-in dictionary.
    pub fn new(unit: F) -> (out: Self)
        ensures
            out.wf(),
            out@ == initial(),
    {
        let mut intern_table = InternTable::new();
        let map = base_map(&mut intern_table);
        let mut store = Store::new();
        let mut save = SaveBox::base();
        let dict = match save.put(&mut store, map) {
            Ok(dict) => dict,
            Err(_) => vstd::pervasive::unreached(),
        };
        let mut save_stack: Vec<SaveBox> = Vec::new();
        save_stack.push(save);
        let mut dict_stack: VecDeque<Dict> = VecDeque::new();
        dict_stack.push_back(dict);
        let out = Vm {
            op_stack: Vec::new(),
            exec_stack: Vec::new(),
            save_stack,
            dict_stack,
            store,
            vminfo: Vminfo::new(),
            intern_table,
            proc_depth: 0,
            output: Vec::new(),
            unit,
        };
        proof {
            assert(out@.op_stack =~= Seq::<FrameView>::empty());
            assert(out@.exec_stack =~= Seq::<FrameView>::empty());
            assert(out@.output =~= Seq::<Seq<char>>::empty());
            assert(out@.save_stack =~= seq![SaveBox { parent: 0 }]);
            assert(out@.dict_stack =~= seq![Dict { parent: 1 }]);
            assert(out@.store =~= initial().store);
            assert(out@.names =~= builtins().dom());
        }
        out
    }

    /// The name of a string.
    pub fn intern(&mut self, string: String) -> (name: Name)
        requires
            old(self).wf(),
        ensures
            final(self).wf(),
            name@ == string@,
            final(self)@ == (VmView { names: old(self)@.names.insert(string@), ..old(self)@ }),
    {
        self.intern_table.intern(string)
    }

    /// The frame on top of the operand stack.
    pub fn peek(&self) -> (out: Option<Frame>)
        ensures
            match out {
                Some(frame) => self@.op_stack.len() > 0 && frame@ == self@.op_stack.last(),
                None => self@.op_stack.len() == 0,
            },
    {
        let n = self.op_stack.len();
        if n == 0 {
            None
        } else {
            Some(self.op_stack[n - 1].copy())
        }
    }

    /// The operand stack, deepest frame first.
    pub fn stack(&self) -> (out: &Vec<Frame>)
        ensures
            views(out@) == self@.op_stack,
    {
        &self.op_stack
    }

    /// Puts a frame on the operand stack.
    fn push(&mut self, frame: Frame)
        requires
            old(self).wf(),
        ensures
            final(self).wf(),
            final(self)@ == pushed(old(self)@, frame@),
    {
        self.op_stack.push(frame);
        proof {
            assert(views(self.op_stack@) =~= views(old(self).op_stack@).push(frame@));
            assert(views(self.op_stack@).drop_last() =~= views(old(self).op_stack@));
        }
    }

    /// Puts a frame on the exec stack, to be executed next.
    fn schedule(&mut self, frame: Frame)
        requires
            old(self).wf(),
        ensures
            final(self).wf(),
            final(self)@ == scheduled(old(self)@, frame@),
    {
        self.exec_stack.push(frame);
        assert(views(self.exec_stack@) =~= views(old(self).exec_stack@).push(frame@));
    }

    /// Opens a procedure literal: the mark goes on the operand stack.
    fn open_proc(&mut self, frame: Frame)
        requires
            old(self).wf(),
            frame@ == FrameView::Active(Datum::Mark),
        ensures
            final(self).wf(),
            final(self)@ == (VmView {
                proc_depth: old(self)@.proc_depth + 1,
                ..pushed(old(self)@, frame@)
            }),
    {
        self.op_stack.push(frame);
        proof {
            assert(views(self.op_stack@) =~= views(old(self).op_stack@).push(frame@));
            assert(views(self.op_stack@).drop_last() =~= views(old(self).op_stack@));
            assert(active_marks(views(self.op_stack@)) == active_marks(
                views(old(self).op_stack@),
            ) + 1);
            lemma_active_marks_bound(views(self.op_stack@));
            assert(views(self.op_stack@).len() == self.op_stack.len());
        }
        self.proc_depth = self.proc_depth + 1;
    }

    /// Runs an operator on one number.
    fn exec_unary(&mut self, op: UnaryOp) -> (out: Option<Error>)
        requires
            old(self).wf(),
            old(self)@.proc_depth == 0,
        ensures
            final(self).wf(),
            final(self)@ == (VmView { op_stack: final(self)@.op_stack, ..old(self)@ }),
            op.effect(
                old(self)@.op_stack,
                final(self)@.op_stack,
                match out {
                    Some(error) => Some(error@),
                    None => None,
                },
            ),
    {
        op.exec(&mut self.op_stack, &self.unit)
    }

    /// Runs an operator on two numbers.
    fn exec_binary(&mut self, op: BinaryOp) -> (out: Option<Error>)
        requires
            old(self).wf(),
            old(self)@.proc_depth == 0,
        ensures
            final(self).wf(),
            final(self)@ == (VmView { op_stack: final(self)@.op_stack, ..old(self)@ }),
            op.effect(
                old(self)@.op_stack,
                final(self)@.op_stack,
                match out {
                    Some(error) => Some(error@),
                    None => None,
                },
            ),
    {
        op.exec(&mut self.op_stack, &self.unit)
    }

    /// Runs an operator on a fixed number of frames.
    fn exec_nary(&mut self, op: NaryOp) -> (out: Option<Error>)
        requires
            old(self).wf(),
            old(self)@.proc_depth == 0,
        ensures
            final(self).wf(),
            effect(
                old(self)@,
                FrameView::NaryOp(op),
                final(self)@,
                match out {
                    Some(error) => Some(error@),
                    None => None,
                },
            ),
    {
        let n = op.n();
        let len = self.op_stack.len();
        if len < n {
            return Some(Error::StackUnderflow);
        }
        let m = len - n;
        let mut substack: Vec<Frame> = Vec::new();
        let mut i = m;
        while i < len
            invariant
                m <= i <= len,
                len == self.op_stack.len(),
                substack.len() == i - m,
                forall|j: int| 0 <= j < i - m ==> substack[j]@ == self.op_stack[m + j]@,
            decreases len - i,
        {
            substack.push(self.op_stack[i].copy());
            i += 1;
        }
        assert(views(substack@) =~= views(self.op_stack@).subrange(m as int, len as int));
        match op.run(substack, &mut self.store) {
            Ok(left) => {
                let mut left = left;
                let ghost added = views(left@);
                self.op_stack.truncate(m);
                self.op_stack.append(&mut left);
                assert(views(self.op_stack@) =~= views(old(self).op_stack@).take(m as int)
                    + added);
                None
            },
            Err(error) => Some(error),
        }
    }

    /// The frame that a name is bound to in the first dictionary of the
    /// dict stack that binds it; `MissingKey` with the name if none does.
    pub fn find(&mut self, name: Name) -> (out: Result<Frame, Error>)
        requires
            old(self).wf(),
        ensures
            final(self).wf(),
            final(self)@ == old(self)@,
            match out {
                Ok(frame) => found(old(self)@.dict_stack, old(self)@.store, name@, 0) == Ok::<
                    FrameView,
                    ErrorView,
                >(frame@),
                Err(error) => found(old(self)@.dict_stack, old(self)@.store, name@, 0) == Err::<
                    FrameView,
                    ErrorView,
                >(error@),
            },
    {
        let mut i: usize = 0;
        while i < self.dict_stack.len()
            invariant
                i <= self.dict_stack@.len(),
                self.wf(),
                *self == *old(self),
                found(self@.dict_stack, self@.store, name@, 0) == found(
                    self@.dict_stack,
                    self@.store,
                    name@,
                    i as int,
                ),
            decreases self.dict_stack@.len() - i,
        {
            match self.dict_stack[i].find(&self.store, &name) {
                Ok(Some(frame)) => {
                    return Ok(frame);
                },
                Ok(None) => {},
                Err(error) => {
                    return Err(error);
                },
            }
            i += 1;
        }
        Err(Error::MissingKey(name.into_string()))
    }

    /// Executes an active list.
    fn exec_list(&mut self, list: List) -> (out: Option<Error>)
        requires
            old(self).wf(),
        ensures
            final(self).wf(),
            match out {
                None => unfolded(old(self)@, list) == Ok::<VmView, ErrorView>(final(self)@),
                Some(error) => unfolded(old(self)@, list) == Err::<VmView, ErrorView>(error@)
                    && final(self)@ == old(self)@,
            },
    {
        let len = match list.len(&self.store) {
            Ok(len) => len,
            Err(error) => {
                return Some(error);
            },
        };
        if len == 0 {
            return None;
        }
        let head = match list.get(&self.store, 0) {
            Ok(head) => head,
            Err(error) => {
                return Some(error);
            },
        };
        if len > 1 {
            let tail = match list.range(&self.store, 1, len - 1) {
                Ok(tail) => tail,
                Err(error) => {
                    return Some(error);
                },
            };
            self.schedule(Frame::Active(Active::List(tail)));
        }
        self.schedule(head);
        None
    }

    /// Executes an active name: what it is bound to is scheduled.
    fn exec_name(&mut self, name: Name) -> (out: Option<Error>)
        requires
            old(self).wf(),
        ensures
            final(self).wf(),
            match found(old(self)@.dict_stack, old(self)@.store, name@, 0) {
                Ok(frame) => out is None && final(self)@ == scheduled(old(self)@, frame),
                Err(error) => out matches Some(e) && e@ == error && final(self)@ == old(self)@,
            },
    {
        match self.find(name) {
            Ok(frame) => {
                self.schedule(frame);
                None
            },
            Err(error) => Some(error),
        }
    }

    /// The frames of a source text, with its names interned in the table
    /// of the engine.
    pub fn parse(&mut self, text: &str) -> (out: Result<Vec<Frame>, Error>)
        requires
            old(self).wf(),
        ensures
            final(self).wf(),
            final(self)@ == (VmView { names: final(self)@.names, ..old(self)@ }),
            old(self)@.names.subset_of(final(self)@.names),
            parsed(
                text@,
                match out {
                    Ok(frames) => Ok(views(frames@)),
                    Err(error) => Err(error@),
                },
            ),
            out is Ok ==> final(self)@.names == old(self)@.names.union(
                names_among(lex(text@, 0).tokens, lex(text@, 0).tokens.len() as int),
            ),
            !has_floats(lex(text@, 0).tokens) ==> (out is Ok <==> lex(text@, 0).error is None),
    {
        parse(text, &mut self.intern_table, &self.unit)
    }

    /// Schedules frames to be executed in their order: the first of them
    /// is the next to execute.
    pub fn load(&mut self, frames: Vec<Frame>)
        requires
            old(self).wf(),
        ensures
            final(self).wf(),
            final(self)@ == (VmView {
                exec_stack: old(self)@.exec_stack + views(frames@).reverse(),
                ..old(self)@
            }),
    {
        let mut frames = frames;
        let ghost all = views(frames@);
        let ghost before = views(self.exec_stack@);
        while frames.len() > 0
            invariant
                self.wf(),
                *self == (Vm { exec_stack: self.exec_stack, ..*old(self) }),
                views(frames@) == all.take(frames.len() as int),
                frames.len() <= all.len(),
                views(self.exec_stack@) == before + all.skip(frames.len() as int).reverse(),
            decreases frames.len(),
        {
            let ghost n = frames.len() as int;
            let ghost stack = views(self.exec_stack@);
            let ghost rest = views(frames@);
            assert(rest[n - 1] == all[n - 1]);
            let frame = frames.pop().unwrap();
            assert(frame@ == rest[n - 1]);
            self.exec_stack.push(frame);
            proof {
                assert(views(frames@) =~= all.take(n - 1));
                assert(views(self.exec_stack@) =~= stack.push(all[n - 1]));
                assert(all.skip(n - 1).reverse() =~= all.skip(n).reverse().push(all[n - 1]));
                assert(views(self.exec_stack@) =~= before + all.skip(n - 1).reverse());
            }
        }
        assert(all.skip(0) =~= all);
    }

    /// Executes an active string: its text is read, and its frames are
    /// scheduled.
    fn exec_string(&mut self, string: String) -> (out: Option<Error>)
        requires
            old(self).wf(),
            old(self)@.proc_depth == 0,
        ensures
            final(self).wf(),
            effect(
                old(self)@,
                FrameView::Active(Datum::String(string@)),
                final(self)@,
                match out {
                    Some(error) => Some(error@),
                    None => None,
                },
            ),
    {
        match self.parse(string.as_str()) {
            Ok(frames) => {
                let ghost base = self@.exec_stack;
                let ghost added = views(frames@);
                self.load(frames);
                proof {
                    let post = self@.exec_stack;
                    assert(post.take(base.len() as int) =~= base);
                    assert(post.skip(base.len() as int) =~= added.reverse());
                    assert(added.reverse().reverse() =~= added);
                }
                None
            },
            Err(error) => Some(error),
        }
    }

    /// Runs an operator on the whole operand stack.
    fn exec_stack_op(&mut self, op: StackOp) -> (out: Option<Error>)
        requires
            old(self).wf(),
            old(self)@.proc_depth == 0,
        ensures
            final(self).wf(),
            out is None,
            stack_op(old(self)@, op, final(self)@),
    {
        match op {
            StackOp::Clear => {
                self.op_stack.clear();
                assert(views(self.op_stack@) =~= Seq::<FrameView>::empty());
            },
            StackOp::Show => {
                let ghost before = lines(self.output@);
                self.output.push("Stack:".to_owned());
                let n = self.op_stack.len();
                let mut i: usize = 0;
                while i < n
                    invariant
                        i <= n,
                        n == self.op_stack.len(),
                        self.wf(),
                        *self == (Vm { output: self.output, ..*old(self) }),
                        self.output.len() == before.len() + 1 + i,
                        lines(self.output@).take(before.len() as int) == before,
                        self.output[before.len() as int]@ == "Stack:"@,
                        forall|j: int|
                            0 <= j < i ==> prints(
                                self.store@,
                                "  "@,
                                views(self.op_stack@)[n - 1 - j],
                                #[trigger] self.output[before.len() + 1 + j]@,
                            ),
                    decreases n - i,
                {
                    let ghost so_far = self.output@;
                    let mut line: Vec<char> = Vec::new();
                    push_str(&mut line, "  ");
                    let text = show_frame(&self.op_stack[n - 1 - i], &self.store, &self.unit);
                    push_str(&mut line, text.as_str());
                    assert(line@ =~= "  "@ + text@);
                    self.output.push(string_of(&line));
                    proof {
                        assert(lines(self.output@).take(before.len() as int) =~= lines(
                            so_far,
                        ).take(before.len() as int));
                        assert forall|j: int| 0 <= j < i + 1 implies prints(
                            self.store@,
                            "  "@,
                            views(self.op_stack@)[n - 1 - j],
                            #[trigger] self.output[before.len() + 1 + j]@,
                        ) by {
                            if j < i {
                                assert(self.output[before.len() + 1 + j] == so_far[before.len() + 1
                                    + j]);
                            }
                        }
                    }
                    i += 1;
                }
                let ghost so_far = self.output@;
                self.output.push("-----".to_owned());
                proof {
                    let post = lines(self.output@);
                    let shown_lines = post.skip(before.len() as int);
                    assert(post.take(before.len() as int) =~= lines(so_far).take(
                        before.len() as int,
                    ));
                    assert(shown_lines[0] == "Stack:"@);
                    assert(shown_lines[shown_lines.len() - 1] == "-----"@);
                    assert forall|j: int| 0 <= j < n implies prints(
                        self.store@,
                        "  "@,
                        views(self.op_stack@)[n - 1 - j],
                        #[trigger] shown_lines[j + 1],
                    ) by {
                        assert(shown_lines[j + 1] == so_far[before.len() + 1 + j]@);
                    }
                }
            },
            StackOp::Peek => {
                let ghost before = lines(self.output@);
                let n = self.op_stack.len();
                if n == 0 {
                    self.output.push("Stack: empty".to_owned());
                } else {
                    let mut line: Vec<char> = Vec::new();
                    push_str(&mut line, "Top: ");
                    let text = show_frame(&self.op_stack[n - 1], &self.store, &self.unit);
                    push_str(&mut line, text.as_str());
                    assert(line@ =~= "Top: "@ + text@);
                    self.output.push(string_of(&line));
                }
                assert(lines(self.output@).drop_last() =~= before);
            },
        }
        None
    }

    /// The place of the last frame of a kind of mark on the operand stack.
    fn find_mark(&self, active: bool) -> (out: Option<usize>)
        ensures
            match out {
                Some(m) => m < self.op_stack.len() && last_mark(
                    views(self.op_stack@),
                    if active {
                        FrameView::Active(Datum::Mark)
                    } else {
                        FrameView::Passive(Datum::Mark)
                    },
                ) == m,
                None => last_mark(
                    views(self.op_stack@),
                    if active {
                        FrameView::Active(Datum::Mark)
                    } else {
                        FrameView::Passive(Datum::Mark)
                    },
                ) == -1,
            },
    {
        let ghost mark = if active {
            FrameView::Active(Datum::Mark)
        } else {
            FrameView::Passive(Datum::Mark)
        };
        let mut i = self.op_stack.len();
        while i > 0
            invariant
                i <= self.op_stack.len(),
                mark == if active {
                    FrameView::Active(Datum::Mark)
                } else {
                    FrameView::Passive(Datum::Mark)
                },
                forall|j: int| i <= j < self.op_stack.len() ==> views(self.op_stack@)[j] != mark,
            decreases i,
        {
            let hit = match &self.op_stack[i - 1] {
                Frame::Active(Active::Mark) => active,
                Frame::Passive(Passive::Mark) => !active,
                _ => false,
            };
            if hit {
                proof {
                    lemma_last_mark(views(self.op_stack@), mark, i - 1);
                }
                return Some(i - 1);
            }
            i -= 1;
        }
        proof {
            lemma_last_mark(views(self.op_stack@), mark, -1);
        }
        None
    }

    /// Whether the current savebox can take an object.
    fn can_save(&self) -> (out: bool)
        requires
            self.wf(),
        ensures
            out == (self@.save_stack.last().save(self@.store) is Some),
    {
        let current = self.save_stack[self.save_stack.len() - 1];
        match current.len(&self.store) {
            Ok(_) => true,
            Err(_) => false,
        }
    }

    /// Collects the frames above the last mark of a kind into a list.
    fn collect(&mut self, active: bool) -> (out: Option<Error>)
        requires
            old(self).wf(),
            active ==> old(self)@.proc_depth > 0,
            !active ==> old(self)@.proc_depth == 0,
        ensures
            final(self).wf(),
            match collected(
                old(self)@,
                if active {
                    FrameView::Active(Datum::Mark)
                } else {
                    FrameView::Passive(Datum::Mark)
                },
                active,
            ) {
                Ok(after) => out is None && final(self)@ == (VmView {
                    proc_depth: if active {
                        (old(self)@.proc_depth - 1) as nat
                    } else {
                        old(self)@.proc_depth
                    },
                    ..after
                }),
                Err(error) => out matches Some(e) && e@ == error && final(self)@ == old(self)@,
            },
    {
        let ghost mark = if active {
            FrameView::Active(Datum::Mark)
        } else {
            FrameView::Passive(Datum::Mark)
        };
        let ghost before = views(self.op_stack@);
        let m = match self.find_mark(active) {
            Some(m) => m,
            None => {
                return Some(Error::StackUnderflow);
            },
        };
        if !self.can_save() {
            return Some(Error::Dropped);
        }
        let r = self.op_stack.split_off(m + 1);
        self.op_stack.pop();
        let ghost frames = views(r@);
        assert(frames =~= before.subrange(m + 1, before.len() as int));
        let mut current = self.save_stack[self.save_stack.len() - 1];
        let list = match current.put(&mut self.store, r) {
            Ok(list) => list,
            Err(_) => vstd::pervasive::unreached(),
        };
        let frame = if active {
            Frame::Active(Active::List(list))
        } else {
            Frame::Passive(Passive::List(list))
        };
        self.op_stack.push(frame);
        proof {
            assert(views(self.op_stack@) =~= before.take(m as int).push(frame@));
            if active {
                let above = before.subrange(m + 1, before.len() as int);
                let below = before.take(m as int);
                lemma_last_mark_is_last(before, mark);
                assert(before =~= below.push(mark) + above);
                lemma_active_marks_split(below.push(mark), above);
                assert(active_marks(below.push(mark)) == active_marks(below) + 1) by {
                    assert(below.push(mark).drop_last() =~= below);
                }
                assert forall|i: int| 0 <= i < above.len() implies above[i] != mark by {
                    assert(above[i] == before[m + 1 + i]);
                }
                lemma_no_active_marks(above);
                assert(active_marks(below.push(frame@)) == active_marks(below)) by {
                    assert(below.push(frame@).drop_last() =~= below);
                }
            }
        }
        if active {
            self.proc_depth = self.proc_depth - 1;
        }
        None
    }

    /// Runs an operator on the engine.
    fn exec_vm_op(&mut self, op: VmOp) -> (out: Option<Error>)
        requires
            old(self).wf(),
            op != VmOp::MkProc ==> old(self)@.proc_depth == 0,
        ensures
            final(self).wf(),
            if old(self)@.op_stack.len() < op.arity() {
                out matches Some(e) && e@ == ErrorView::StackUnderflow && final(self)@ == old(
                    self,
                )@
            } else {
                match vm_op(old(self)@, op) {
                    Ok(after) => out is None && final(self)@ == after,
                    Err(error) => out matches Some(e) && e@ == error && final(self)@ == old(
                        self,
                    )@,
                }
            },
    {
        let n = self.op_stack.len();
        if n < op.n() {
            return Some(Error::StackUnderflow);
        }
        let ghost before = views(self.op_stack@);
        match op {
            VmOp::Name => {
                let is_name = match &self.op_stack[n - 1] {
                    Frame::Passive(Passive::Name(_)) => true,
                    _ => false,
                };
                if !is_name {
                    return Some(Error::OpType);
                }
                let name = match self.op_stack.pop() {
                    Some(Frame::Passive(Passive::Name(name))) => name,
                    _ => vstd::pervasive::unreached(),
                };
                let frame = self.op_stack.pop().unwrap();
                assert(frame@ == before[n - 2]);
                assert(views(self.op_stack@) =~= before.take(n - 2));
                let mut dict = self.dict_stack[0];
                let _ = dict.put(&mut self.store, name, frame);
                None
            },
            VmOp::MkName => {
                let is_string = match &self.op_stack[n - 1] {
                    Frame::Passive(Passive::String(_)) => true,
                    _ => false,
                };
                if !is_string {
                    return Some(Error::OpType);
                }
                let string = match self.op_stack.pop() {
                    Some(Frame::Passive(Passive::String(string))) => string,
                    _ => vstd::pervasive::unreached(),
                };
                let name = self.intern_table.intern(string);
                let frame = Frame::Passive(Passive::Name(name));
                self.op_stack.push(frame);
                assert(views(self.op_stack@) =~= before.take(n - 1).push(frame@));
                None
            },
            VmOp::Exec => {
                let is_active = match &self.op_stack[n - 1] {
                    Frame::Active(_) => true,
                    _ => false,
                };
                if !is_active {
                    return Some(Error::OpType);
                }
                let frame = self.op_stack.pop().unwrap();
                assert(views(self.op_stack@) =~= before.take(n - 1));
                let ghost stack = views(self.exec_stack@);
                self.exec_stack.push(frame);
                assert(views(self.exec_stack@) =~= stack.push(frame@));
                None
            },
            VmOp::MkList => self.collect(false),
            VmOp::MkProc => {
                if self.proc_depth == 0 {
                    return Some(Error::StackUnderflow);
                }
                self.collect(true)
            },
            VmOp::List => {
                let len = match &self.op_stack[n - 1] {
                    Frame::Num(num) => match from_num(num.copy()) {
                        Ok(len) => len,
                        Err(error) => {
                            return Some(error);
                        },
                    },
                    _ => {
                        return Some(Error::OpType);
                    },
                };
                if !self.can_save() {
                    return Some(Error::Dropped);
                }
                let mut r: Vec<Frame> = Vec::new();
                let mut i: usize = 0;
                while i < len
                    invariant
                        i <= len,
                        r.len() == i,
                        forall|j: int| 0 <= j < i ==> r[j]@ == FrameView::Null,
                    decreases len - i,
                {
                    r.push(Frame::Null);
                    i += 1;
                }
                assert(views(r@) =~= Seq::new(len as nat, |i: int| FrameView::Null));
                let mut current = self.save_stack[self.save_stack.len() - 1];
                let list = match current.put(&mut self.store, r) {
                    Ok(list) => list,
                    Err(_) => vstd::pervasive::unreached(),
                };
                self.op_stack.pop();
                let frame = Frame::Passive(Passive::List(list));
                self.op_stack.push(frame);
                assert(views(self.op_stack@) =~= before.take(n - 1).push(frame@));
                None
            },
            VmOp::VmStatus => {
                let mut frames = vmstatus(&self.vminfo);
                let ghost added = views(frames@);
                self.op_stack.append(&mut frames);
                assert(views(self.op_stack@) =~= before + added);
                assert(before + added =~= before.push(added[0]).push(added[1]));
                None
            },
        }
    }

    /// Executes a frame that has come off the exec stack.
    fn execute(&mut self, frame: Frame) -> (out: Option<Error>)
        requires
            old(self).wf(),
        ensures
            final(self).wf(),
            effect(
                old(self)@,
                frame@,
                final(self)@,
                match out {
                    Some(error) => Some(error@),
                    None => None,
                },
            ),
    {
        let is_mark = match &frame {
            Frame::Active(Active::Mark) => true,
            _ => false,
        };
        if is_mark {
            self.open_proc(frame);
            return None;
        }
        let closes = match &frame {
            Frame::VmOp(VmOp::MkProc) => true,
            _ => false,
        };
        if self.proc_depth > 0 && !closes {
            self.push(frame);
            return None;
        }
        match frame {
            Frame::UnaryOp(op) => self.exec_unary(op),
            Frame::BinaryOp(op) => self.exec_binary(op),
            Frame::NaryOp(op) => self.exec_nary(op),
            Frame::Active(Active::List(list)) => self.exec_list(list),
            Frame::Active(Active::Name(name)) => self.exec_name(name),
            Frame::Active(Active::String(string)) => self.exec_string(string),
            Frame::StackOp(op) => self.exec_stack_op(op),
            Frame::VmOp(op) => self.exec_vm_op(op),
            other => {
                self.push(other);
                None
            },
        }
    }

    /// One step: takes the last frame off the exec stack and executes it.
    ///
    /// The answer is `false`, and nothing happens, if the exec stack is
    /// empty. If the frame fails, the rest of the exec stack is discarded,
    /// and the operand stack is what it was before the step.
    pub fn step(&mut self) -> (out: Result<bool, Error>)
        requires
            old(self).wf(),
        ensures
            final(self).wf(),
            step(
                old(self)@,
                final(self)@,
                match out {
                    Ok(more) => Ok(more),
                    Err(error) => Err(error@),
                },
            ),
    {
        let ghost before = views(self.exec_stack@);
        let frame = match self.exec_stack.pop() {
            Some(frame) => frame,
            None => {
                return Ok(false);
            },
        };
        assert(views(self.exec_stack@) =~= before.drop_last());
        assert(frame@ == before.last());
        match self.execute(frame) {
            None => Ok(true),
            Some(error) => {
                let ghost failed = self@;
                self.exec_stack.clear();
                proof {
                    assert(views(self.exec_stack@) =~= Seq::<FrameView>::empty());
                    assert((VmView { exec_stack: failed.exec_stack, ..self@ }) == failed);
                }
                Err(error)
            },
        }
    }

    /// Steps until the exec stack is empty, a step fails, or `budget` steps
    /// have been made.
    pub fn run(&mut self, budget: u64) -> (out: Result<Run, Error>)
        requires
            old(self).wf(),
        ensures
            final(self).wf(),
            ran(
                old(self)@,
                final(self)@,
                budget as nat,
                match out {
                    Ok(Run::Done(Some(frame))) => Ok(Some(Some(frame@))),
                    Ok(Run::Done(None)) => Ok(Some(None)),
                    Ok(Run::Paused) => Ok(None),
                    Err(error) => Err(error@),
                },
            ),
    {
        let mut left = budget;
        while left > 0
            invariant
                self.wf(),
                left <= budget,
                reaches(old(self)@, self@, (budget - left) as nat),
            decreases left,
        {
            let ghost mid = self@;
            match self.step() {
                Ok(true) => {},
                Ok(false) => {
                    return Ok(Run::Done(self.peek()));
                },
                Err(error) => {
                    return Err(error);
                },
            }
            left -= 1;
            assert(reaches(old(self)@, self@, (budget - left) as nat)) by {
                assert(reaches(old(self)@, mid, (budget - left - 1) as nat));
                assert(step(mid, self@, Ok(true)));
            }
        }
        if self.exec_stack.len() == 0 {
            Ok(Run::Done(self.peek()))
        } else {
            Ok(Run::Paused)
        }
    }

    /// Executes frames in their order, and after them what was left to
    /// execute before: `load`, then `run`.
    ///
    /// `Done` holds the frame on top of the operand stack once the exec
    /// stack is empty. A program need not halt: `Paused` says that `budget`
    /// steps have been made and frames are left, and `run` goes on from
    /// there.
    pub fn exec(&mut self, frames: Vec<Frame>, budget: u64) -> (out: Result<Run, Error>)
        requires
            old(self).wf(),
        ensures
            final(self).wf(),
            ran(
                VmView {
                    exec_stack: old(self)@.exec_stack + views(frames@).reverse(),
                    ..old(self)@
                },
                final(self)@,
                budget as nat,
                match out {
                    Ok(Run::Done(Some(frame))) => Ok(Some(Some(frame@))),
                    Ok(Run::Done(None)) => Ok(Some(None)),
                    Ok(Run::Paused) => Ok(None),
                    Err(error) => Err(error@),
                },
            ),
    {
        self.load(frames);
        self.run(budget)
    }

    /// Prints a line: it is kept until the host takes the output.
    pub fn print(&mut self, line: String)
        requires
            old(self).wf(),
        ensures
            final(self).wf(),
            final(self)@ == (VmView { output: old(self)@.output.push(line@), ..old(self)@ }),
    {
        self.output.push(line);
        assert(lines(self.output@) =~= lines(old(self).output@).push(line@));
    }

    /// Executes frames as `exec` does, and prints how that ended: the frame
    /// on top of the operand stack, that the stack is empty, that the budget
    /// is spent, or the error. The error is also the answer.
    pub fn result(&mut self, frames: Vec<Frame>, budget: u64) -> (out: Option<Error>)
        requires
            old(self).wf(),
        ensures
            final(self).wf(),
            final(self)@.output.len() > 0,
            reported(
                VmView {
                    exec_stack: old(self)@.exec_stack + views(frames@).reverse(),
                    ..old(self)@
                },
                VmView { output: final(self)@.output.drop_last(), ..final(self)@ },
                budget as nat,
                final(self)@.output.last(),
                match out {
                    Some(error) => Some(error@),
                    None => None,
                },
            ),
    {
        let ran = self.exec(frames, budget);
        let ghost mid = self@;
        let mut line: Vec<char> = Vec::new();
        let out = match ran {
            Ok(Run::Done(Some(f))) => {
                push_str(&mut line, "Result: ");
                let text = show_frame(&f, &self.store, &self.unit);
                push_str(&mut line, text.as_str());
                assert(line@ =~= "Result: "@ + text@);
                None
            },
            Ok(Run::Done(None)) => {
                push_str(&mut line, "Empty stack");
                None
            },
            Ok(Run::Paused) => {
                push_str(&mut line, "Paused");
                None
            },
            Err(e) => {
                push_str(&mut line, "Error: ");
                let text = e.message();
                push_str(&mut line, text.as_str());
                assert(line@ =~= "Error: "@ + e@.message());
                Some(e)
            },
        };
        self.print(string_of(&line));
        assert(self@.output.drop_last() =~= mid.output);
        out
    }

    /// Opens a savebox in the current one and makes it the current one:
    /// what is made from now on is owned by it. `Dropped`, and nothing
    /// done, if the current savebox has been released.
    pub fn save(&mut self) -> (out: Option<Error>)
        requires
            old(self).wf(),
        ensures
            final(self).wf(),
            match saved(old(self)@) {
                Ok(after) => out is None && final(self)@ == after,
                Err(error) => out matches Some(e) && e@ == error && final(self)@ == old(self)@,
            },
    {
        let mut current = self.save_stack[self.save_stack.len() - 1];
        match current.put(&mut self.store, Save::new()) {
            Ok(savebox) => {
                self.save_stack.push(savebox);
                None
            },
            Err(error) => Some(error),
        }
    }

    /// Closes the current savebox and releases it: every list that was made
    /// while it was the current one answers `Dropped` from now on. The
    /// savebox below it is the current one again. The base savebox stays:
    /// with it alone on the save stack nothing happens, and the answer is
    /// `false`.
    pub fn restore(&mut self) -> (out: bool)
        requires
            old(self).wf(),
        ensures
            final(self).wf(),
            match restored(old(self)@) {
                Some(after) => out && final(self)@ == after,
                None => !out && final(self)@ == old(self)@,
            },
    {
        if self.save_stack.len() <= 1 {
            return false;
        }
        let savebox = self.save_stack.pop().unwrap();
        let _ = self.store.release(&savebox);
        true
    }

    /// Whether the intern table holds a string.
    pub fn interned(&self, string: &String) -> (out: bool)
        ensures
            out == self@.names.contains(string@),
    {
        self.intern_table.holds(string)
    }

    /// The strings that the intern table holds, in the order of its
    /// entries.
    pub closed spec fn entries(&self) -> Seq<Seq<char>> {
        self.intern_table.entries()
    }

    /// Evicts from the intern table the strings that no name shares any
    /// more, in the engine or outside it. Which those are depends on what
    /// the program holds at the time. Whatever it holds, the strings that
    /// stay are those of the entries that have more holders than the table
    /// alone, for some numbers of holders, one for each entry; nothing is
    /// added, and nothing else in the engine changes.
    pub fn evict_names(&mut self)
        requires
            old(self).wf(),
        ensures
            final(self).wf(),
            final(self)@ == (VmView { names: final(self)@.names, ..old(self)@ }),
            final(self)@.names.subset_of(old(self)@.names),
            exists|holders: Seq<usize>|
                holders.len() == old(self).entries().len() && final(self)@.names
                    == #[trigger] shared(old(self).entries(), holders),
    {
        self.intern_table.evict();
        proof {
            let holders = choose|holders: Seq<usize>|
                holders.len() == old(self).intern_table.entries().len() && self.intern_table@
                    == #[trigger] shared(old(self).intern_table.entries(), holders);
            assert(self@.names == shared(old(self).entries(), holders));
        }
    }

    /// Takes note of the memory of the process, as the host has measured
    /// it: virtual and resident, in bytes.
    pub fn report_memory(&mut self, max: i64, used: i64)
        requires
            old(self).wf(),
        ensures
            final(self).wf(),
            final(self)@ == (VmView { memory: (max, used), ..old(self)@ }),
    {
        self.vminfo = Vminfo { max, used };
    }

    /// Hands out the lines that were printed since the last call.
    pub fn take_output(&mut self) -> (out: Vec<String>)
        requires
            old(self).wf(),
        ensures
            final(self).wf(),
            lines(out@) == old(self)@.output,
            final(self)@ == (VmView { output: Seq::empty(), ..old(self)@ }),
    {
        let mut out: Vec<String> = Vec::new();
        core::mem::swap(&mut out, &mut self.output);
        assert(lines(self.output@) =~= Seq::<Seq<char>>::empty());
        out
    }
}

} // verus!
