//! The state of the engine as contracts see it, and the built-in dictionary.

use vstd::prelude::*;

use crate::numeric::{Number, NumberView, NumericValue};
use crate::types::dict::{ordered, Dict, DictMap};
use crate::types::name::InternTable;
use crate::types::num::{Num, NumView};
use crate::types::save::{SaveBox, SlotView};
use crate::vm::frame::{Datum, Frame, FrameView, Passive};
use crate::vm::optypes::{BinaryOp, NaryOp, StackOp, UnaryOp, VmOp};

verus! {

/// The state of an engine.
pub ghost struct VmView {
    /// The operand stack, deepest frame first.
    pub op_stack: Seq<FrameView>,
    /// The exec stack; its last frame is the next to execute.
    pub exec_stack: Seq<FrameView>,
    /// The save stack; its first savebox is the base, its last the current.
    pub save_stack: Seq<SaveBox>,
    /// The dict stack; names are looked up from its first dictionary on.
    pub dict_stack: Seq<Dict>,
    /// The slots of all composites.
    pub store: Seq<SlotView>,
    /// The strings that the intern table holds.
    pub names: Set<Seq<char>>,
    /// How many procedure literals are open.
    pub proc_depth: nat,
    /// What the host last reported of its memory: virtual, resident.
    pub memory: (i64, i64),
    /// The lines that were printed and not yet taken.
    pub output: Seq<Seq<char>>,
}

/// The number of active marks among frames.
pub open spec fn active_marks(frames: Seq<FrameView>) -> nat
    decreases frames.len(),
{
    if frames.len() == 0 {
        0
    } else {
        active_marks(frames.drop_last()) + if frames.last() == FrameView::Active(Datum::Mark) {
            1nat
        } else {
            0nat
        }
    }
}

/// There are no more active marks among frames than frames.
pub proof fn lemma_active_marks_bound(frames: Seq<FrameView>)
    ensures
        active_marks(frames) <= frames.len(),
    decreases frames.len(),
{
    if frames.len() > 0 {
        lemma_active_marks_bound(frames.drop_last());
    }
}

/// The active marks among frames, part by part.
pub proof fn lemma_active_marks_split(head: Seq<FrameView>, tail: Seq<FrameView>)
    ensures
        active_marks(head + tail) == active_marks(head) + active_marks(tail),
    decreases tail.len(),
{
    if tail.len() == 0 {
        assert(head + tail =~= head);
    } else {
        lemma_active_marks_split(head, tail.drop_last());
        assert((head + tail).drop_last() =~= head + tail.drop_last());
    }
}

/// Frames of which none is an active mark have no active marks among them.
pub proof fn lemma_no_active_marks(frames: Seq<FrameView>)
    requires
        forall|i: int| 0 <= i < frames.len() ==> frames[i] != FrameView::Active(Datum::Mark),
    ensures
        active_marks(frames) == 0,
    decreases frames.len(),
{
    if frames.len() > 0 {
        lemma_no_active_marks(frames.drop_last());
    }
}

/// The built-in dictionary: every operator under its word, the aliases of
/// the arithmetic and printing operators, and the constants.
pub open spec fn builtins() -> Map<Seq<char>, FrameView> {
    Map::<Seq<char>, FrameView>::empty().insert("neg"@, FrameView::UnaryOp(UnaryOp::Neg)).insert(
        "cos"@,
        FrameView::UnaryOp(UnaryOp::Cos),
    ).insert("add"@, FrameView::BinaryOp(BinaryOp::Add)).insert(
        "sub"@,
        FrameView::BinaryOp(BinaryOp::Sub),
    ).insert("mul"@, FrameView::BinaryOp(BinaryOp::Mul)).insert(
        "div"@,
        FrameView::BinaryOp(BinaryOp::Div),
    ).insert("clear"@, FrameView::StackOp(StackOp::Clear)).insert(
        "show"@,
        FrameView::StackOp(StackOp::Show),
    ).insert("peek"@, FrameView::StackOp(StackOp::Peek)).insert(
        "name"@,
        FrameView::VmOp(VmOp::Name),
    ).insert("mkname"@, FrameView::VmOp(VmOp::MkName)).insert(
        "exec"@,
        FrameView::VmOp(VmOp::Exec),
    ).insert("mklist"@, FrameView::VmOp(VmOp::MkList)).insert(
        "mkproc"@,
        FrameView::VmOp(VmOp::MkProc),
    ).insert("list"@, FrameView::VmOp(VmOp::List)).insert(
        "pop"@,
        FrameView::NaryOp(NaryOp::Pop),
    ).insert("dup"@, FrameView::NaryOp(NaryOp::Dup)).insert(
        "exch"@,
        FrameView::NaryOp(NaryOp::Exch),
    ).insert("get"@, FrameView::NaryOp(NaryOp::Get)).insert(
        "put"@,
        FrameView::NaryOp(NaryOp::Put),
    ).insert("length"@, FrameView::NaryOp(NaryOp::Length)).insert(
        "getinterval"@,
        FrameView::NaryOp(NaryOp::GetInterval),
    ).insert("quit"@, FrameView::NaryOp(NaryOp::Quit)).insert(
        "mkstr"@,
        FrameView::NaryOp(NaryOp::MkStr),
    ).insert("mkpass"@, FrameView::NaryOp(NaryOp::MkPass)).insert(
        "mkact"@,
        FrameView::NaryOp(NaryOp::MkAct),
    ).insert("vmstats"@, FrameView::VmOp(VmOp::VmStatus)).insert(
        "^"@,
        FrameView::UnaryOp(UnaryOp::Neg),
    ).insert("+"@, FrameView::BinaryOp(BinaryOp::Add)).insert(
        "-"@,
        FrameView::BinaryOp(BinaryOp::Sub),
    ).insert("\u{d7}"@, FrameView::BinaryOp(BinaryOp::Mul)).insert(
        "\u{f7}"@,
        FrameView::BinaryOp(BinaryOp::Div),
    ).insert(
        "*"@,
        FrameView::Num(NumView::Int(NumberView::Scalar(NumericValue::NaN))),
    ).insert("=="@, FrameView::StackOp(StackOp::Show)).insert(
        "="@,
        FrameView::StackOp(StackOp::Peek),
    ).insert("mark"@, FrameView::Passive(Datum::Mark)).insert("null"@, FrameView::Null)
}

/// The words of the built-in dictionary, in the order in which they are
/// bound.
pub open spec fn builtin_words() -> Seq<Seq<char>> {
    ordered(
        ordered(
            ordered(
                ordered(
                    ordered(
                        ordered(
                            ordered(
                                ordered(
                                    ordered(
                                        ordered(operator_words(), "^"@),
                                        "+"@,
                                    ),
                                    "-"@,
                                ),
                                "\u{d7}"@,
                            ),
                            "\u{f7}"@,
                        ),
                        "*"@,
                    ),
                    "=="@,
                ),
                "="@,
            ),
            "mark"@,
        ),
        "null"@,
    )
}

/// The words of the operators, in the order in which they are bound.
pub open spec fn operator_words() -> Seq<Seq<char>> {
    let numeric = ordered(
        ordered(
            ordered(
                ordered(ordered(ordered(Seq::empty(), "neg"@), "cos"@), "add"@),
                "sub"@,
            ),
            "mul"@,
        ),
        "div"@,
    );
    let engine = ordered(
        ordered(
            ordered(
                ordered(
                    ordered(
                        ordered(
                            ordered(
                                ordered(ordered(numeric, "clear"@), "show"@),
                                "peek"@,
                            ),
                            "name"@,
                        ),
                        "mkname"@,
                    ),
                    "exec"@,
                ),
                "mklist"@,
            ),
            "mkproc"@,
        ),
        "list"@,
    );
    let frames = ordered(
        ordered(
            ordered(
                ordered(
                    ordered(
                        ordered(
                            ordered(
                                ordered(ordered(engine, "pop"@), "dup"@),
                                "exch"@,
                            ),
                            "get"@,
                        ),
                        "put"@,
                    ),
                    "length"@,
                ),
                "getinterval"@,
            ),
            "quit"@,
        ),
        "mkstr"@,
    );
    ordered(ordered(ordered(frames, "mkpass"@), "mkact"@), "vmstats"@)
}

/// Binds a word in a dictionary that is being built, and interns it.
fn bind(dict: &mut DictMap, t: &mut InternTable, word: &str, frame: Frame)
    requires
        old(dict).wf(),
        old(t).wf(),
    ensures
        final(dict).wf(),
        final(t).wf(),
        final(dict)@ == old(dict)@.insert(word@, frame@),
        final(dict).names() == ordered(old(dict).names(), word@),
        final(t)@ == old(t)@.insert(word@),
{
    let name = t.intern(word.to_owned());
    dict.insert(name, frame);
}

/// The built-in dictionary, with every word of it interned.
pub fn base_map(t: &mut InternTable) -> (dict: DictMap)
    requires
        old(t).wf(),
    ensures
        final(t).wf(),
        dict.wf(),
        dict@ == builtins(),
        dict.names() == builtin_words(),
        final(t)@ == old(t)@.union(builtins().dom()),
{
    let mut dict = DictMap::new();
    let ghost names = t@;
    bind(&mut dict, t, "neg", Frame::UnaryOp(UnaryOp::Neg));
    bind(&mut dict, t, "cos", Frame::UnaryOp(UnaryOp::Cos));
    bind(&mut dict, t, "add", Frame::BinaryOp(BinaryOp::Add));
    bind(&mut dict, t, "sub", Frame::BinaryOp(BinaryOp::Sub));
    bind(&mut dict, t, "mul", Frame::BinaryOp(BinaryOp::Mul));
    bind(&mut dict, t, "div", Frame::BinaryOp(BinaryOp::Div));
    bind(&mut dict, t, "clear", Frame::StackOp(StackOp::Clear));
    bind(&mut dict, t, "show", Frame::StackOp(StackOp::Show));
    bind(&mut dict, t, "peek", Frame::StackOp(StackOp::Peek));
    bind(&mut dict, t, "name", Frame::VmOp(VmOp::Name));
    bind(&mut dict, t, "mkname", Frame::VmOp(VmOp::MkName));
    bind(&mut dict, t, "exec", Frame::VmOp(VmOp::Exec));
    bind(&mut dict, t, "mklist", Frame::VmOp(VmOp::MkList));
    bind(&mut dict, t, "mkproc", Frame::VmOp(VmOp::MkProc));
    bind(&mut dict, t, "list", Frame::VmOp(VmOp::List));
    bind(&mut dict, t, "pop", Frame::NaryOp(NaryOp::Pop));
    bind(&mut dict, t, "dup", Frame::NaryOp(NaryOp::Dup));
    bind(&mut dict, t, "exch", Frame::NaryOp(NaryOp::Exch));
    bind(&mut dict, t, "get", Frame::NaryOp(NaryOp::Get));
    bind(&mut dict, t, "put", Frame::NaryOp(NaryOp::Put));
    bind(&mut dict, t, "length", Frame::NaryOp(NaryOp::Length));
    bind(&mut dict, t, "getinterval", Frame::NaryOp(NaryOp::GetInterval));
    bind(&mut dict, t, "quit", Frame::NaryOp(NaryOp::Quit));
    bind(&mut dict, t, "mkstr", Frame::NaryOp(NaryOp::MkStr));
    bind(&mut dict, t, "mkpass", Frame::NaryOp(NaryOp::MkPass));
    bind(&mut dict, t, "mkact", Frame::NaryOp(NaryOp::MkAct));
    bind(&mut dict, t, "vmstats", Frame::VmOp(VmOp::VmStatus));
    bind(&mut dict, t, "^", Frame::UnaryOp(UnaryOp::Neg));
    bind(&mut dict, t, "+", Frame::BinaryOp(BinaryOp::Add));
    bind(&mut dict, t, "-", Frame::BinaryOp(BinaryOp::Sub));
    bind(&mut dict, t, "\u{d7}", Frame::BinaryOp(BinaryOp::Mul));
    bind(&mut dict, t, "\u{f7}", Frame::BinaryOp(BinaryOp::Div));
    bind(&mut dict, t, "*", Frame::Num(Num::Int(Number::Scalar(NumericValue::NaN))));
    bind(&mut dict, t, "==", Frame::StackOp(StackOp::Show));
    bind(&mut dict, t, "=", Frame::StackOp(StackOp::Peek));
    bind(&mut dict, t, "mark", Frame::Passive(Passive::Mark));
    bind(&mut dict, t, "null", Frame::Null);
    assert(t@ =~= names.union(builtins().dom()));
    dict
}

} // verus!
