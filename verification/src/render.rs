//! How frames print.
//!
//! A list prints its frames, and a frame may be a list: of the same slot, or
//! of a slot whose frames lead back to it. While a list is being printed its
//! identity is pending, and a pending list prints as `...` where it is met
//! again.
//!
//! The text of a float is the host's: the text of a frame is specified here
//! as far as no float is printed.

use vstd::prelude::*;

use crate::numeric::float::{Float, FloatUnit};
use crate::numeric::{Number, NumberView, NumericValue};
use crate::text::{decimal, push_signed, push_str, push_unsigned, string_of};
use crate::types::dict::{Dict, DictFmt};
use crate::types::list::{List, ListFmt};
use crate::types::num::{Num, NumView};
use crate::types::savable::AnyFmt;
use crate::types::save::{SlotView, Store};
use crate::vm::frame::{views, Active, Datum, Frame, FrameView, Passive};

verus! {

/// Texts set one after the other, with a space between each two. The result
/// is `None` if one of the texts is.
pub open spec fn spaced(parts: Seq<Option<Seq<char>>>) -> Option<Seq<char>>
    decreases parts.len(),
{
    if parts.len() == 0 {
        Some(Seq::empty())
    } else if parts.len() == 1 {
        parts[0]
    } else {
        match (spaced(parts.drop_last()), parts.last()) {
            (Some(head), Some(last)) => Some(head + " "@ + last),
            _ => None,
        }
    }
}

/// The text of a signed value.
pub open spec fn int_text(value: NumericValue<i64>) -> Option<Seq<char>> {
    match value {
        NumericValue::Value(v) => Some(decimal(v as int)),
        NumericValue::NaN => Some("*"@),
    }
}

/// The text of an unsigned value.
pub open spec fn usize_text(value: NumericValue<usize>) -> Option<Seq<char>> {
    match value {
        NumericValue::Value(v) => Some(decimal(v as int)),
        NumericValue::NaN => Some("*"@),
    }
}

/// The text of a float value, as far as the library decides it.
pub open spec fn float_text(value: NumericValue<Float>) -> Option<Seq<char>> {
    match value {
        NumericValue::Value(v) => None,
        NumericValue::NaN => Some("*"@),
    }
}

/// The text of a number: that of its value, or those of its values with
/// spaces between them.
pub open spec fn num_text(num: NumView) -> Option<Seq<char>> {
    match num {
        NumView::Int(NumberView::Scalar(v)) => int_text(v),
        NumView::Int(NumberView::Array(a)) => spaced(Seq::new(a.len(), |i: int| int_text(a[i]))),
        NumView::USize(NumberView::Scalar(v)) => usize_text(v),
        NumView::USize(NumberView::Array(a)) => spaced(
            Seq::new(a.len(), |i: int| usize_text(a[i])),
        ),
        NumView::Float(NumberView::Scalar(v)) => float_text(v),
        NumView::Float(NumberView::Array(a)) => spaced(
            Seq::new(a.len(), |i: int| float_text(a[i])),
        ),
    }
}

/// The text of a frame while the lists in `pending` are being printed:
/// at most `fuel` lists deep, and `...` below that.
pub open spec fn frame_text(
    store: Seq<SlotView>,
    frame: FrameView,
    pending: Seq<AnyFmt>,
    fuel: nat,
) -> Option<Seq<char>>
    decreases fuel, 1int,
{
    match frame {
        FrameView::Null => Some("null"@),
        FrameView::Num(num) => num_text(num),
        FrameView::UnaryOp(op) => Some(op.word()),
        FrameView::BinaryOp(op) => Some(op.word()),
        FrameView::StackOp(op) => Some(op.word()),
        FrameView::NaryOp(op) => Some(op.word()),
        FrameView::VmOp(op) => Some(op.word()),
        FrameView::Active(Datum::String(string)) => Some("~("@ + string + ")"@),
        FrameView::Active(Datum::Name(name)) => Some("~/("@ + name + ")"@),
        FrameView::Active(Datum::Mark) => Some("{"@),
        FrameView::Active(Datum::List(list)) => match list_text(store, list, pending, fuel) {
            Some(text) => Some("{ "@ + text + " }"@),
            None => None,
        },
        FrameView::Passive(Datum::String(string)) => Some("("@ + string + ")"@),
        FrameView::Passive(Datum::Name(name)) => Some("/("@ + name + ")"@),
        FrameView::Passive(Datum::Mark) => Some("["@),
        FrameView::Passive(Datum::List(list)) => match list_text(store, list, pending, fuel) {
            Some(text) => Some("[ "@ + text + " ]"@),
            None => None,
        },
    }
}

/// The identity under which a list is pending while it prints.
pub open spec fn identity(list: List) -> AnyFmt {
    AnyFmt::List(ListFmt { parent: list.parent, start: list.start, len: list.len })
}

/// The text of a list: `-- Dropped --` once its slot has been released,
/// `...` while it is pending, and else the texts of its frames with spaces
/// between them.
pub open spec fn list_text(
    store: Seq<SlotView>,
    list: List,
    pending: Seq<AnyFmt>,
    fuel: nat,
) -> Option<Seq<char>>
    decreases fuel, 0int,
{
    match list.backing(store) {
        None => Some("-- Dropped --"@),
        Some(all) => if pending.contains(identity(list)) || fuel == 0 {
            Some("..."@)
        } else {
            spaced(
                list_parts(store, list, all, pending.push(identity(list)), (fuel - 1) as nat),
            )
        },
    }
}

/// The texts of the frames of a list, of which `all` are the frames of its
/// slot.
pub open spec fn list_parts(
    store: Seq<SlotView>,
    list: List,
    all: Seq<FrameView>,
    pending: Seq<AnyFmt>,
    fuel: nat,
) -> Seq<Option<Seq<char>>>
    decreases fuel, 2int,
{
    Seq::new(list.len as nat, |i: int| frame_text(store, all[list.start + i], pending, fuel))
}

/// One more text after texts that are already set.
proof fn lemma_spaced_next(parts: Seq<Option<Seq<char>>>, i: int)
    requires
        0 <= i < parts.len(),
    ensures
        spaced(parts.take(i + 1)) == if i == 0 {
            parts[0]
        } else {
            match (spaced(parts.take(i)), parts[i]) {
                (Some(head), Some(last)) => Some(head + " "@ + last),
                _ => None,
            }
        },
{
    let next = parts.take(i + 1);
    assert(next.last() == parts[i]);
    assert(next.drop_last() =~= parts.take(i));
    if i == 0 {
        assert(next[0] == parts[0]);
    }
}

/// Appends the text of a signed value.
fn write_int(out: &mut Vec<char>, value: NumericValue<i64>)
    ensures
        int_text(value) matches Some(text) && final(out)@ == old(out)@ + text,
{
    match value {
        NumericValue::Value(v) => push_signed(out, v),
        NumericValue::NaN => push_str(out, "*"),
    }
}

/// Appends the text of an unsigned value.
fn write_usize(out: &mut Vec<char>, value: NumericValue<usize>)
    ensures
        usize_text(value) matches Some(text) && final(out)@ == old(out)@ + text,
{
    match value {
        NumericValue::Value(v) => push_unsigned(out, v),
        NumericValue::NaN => push_str(out, "*"),
    }
}

/// Appends the text of a float value: the host's text of a value.
fn write_float<F: FloatUnit>(out: &mut Vec<char>, value: NumericValue<Float>, unit: &F)
    ensures
        float_text(value) matches Some(text) ==> final(out)@ == old(out)@ + text,
{
    match value {
        NumericValue::Value(v) => {
            let text = unit.show(v);
            push_str(out, text.as_str());
        },
        NumericValue::NaN => push_str(out, "*"),
    }
}

/// Appends the text of a number.
pub fn write_num<F: FloatUnit>(out: &mut Vec<char>, num: &Num, unit: &F)
    ensures
        num_text(num@) matches Some(text) ==> final(out)@ == old(out)@ + text,
{
    match num {
        Num::Int(Number::Scalar(v)) => write_int(out, *v),
        Num::USize(Number::Scalar(v)) => write_usize(out, *v),
        Num::Float(Number::Scalar(v)) => write_float(out, *v, unit),
        Num::Int(Number::Array(a)) => {
            let ghost parts = Seq::new(a@.len(), |i: int| int_text(a@[i]));
            let mut i: usize = 0;
            while i < a.len()
                invariant
                    i <= a.len(),
                    parts == Seq::new(a@.len(), |i: int| int_text(a@[i])),
                    spaced(parts.take(i as int)) matches Some(text) ==> out@ == old(out)@ + text,
                decreases a.len() - i,
            {
                proof {
                    lemma_spaced_next(parts, i as int);
                }
                let ghost before = out@;
                if i > 0 {
                    push_str(out, " ");
                }
                write_int(out, a[i]);
                proof {
                    if let Some(text) = spaced(parts.take(i as int)) {
                        let last = int_text(a@[i as int])->Some_0;
                        if i > 0 {
                            assert(out@ =~= old(out)@ + (text + " "@ + last));
                        } else {
                            assert(text =~= Seq::<char>::empty());
                            assert(out@ =~= old(out)@ + last);
                        }
                    }
                }
                i += 1;
            }
            assert(parts.take(a.len() as int) =~= parts);
        },
        Num::USize(Number::Array(a)) => {
            let ghost parts = Seq::new(a@.len(), |i: int| usize_text(a@[i]));
            let mut i: usize = 0;
            while i < a.len()
                invariant
                    i <= a.len(),
                    parts == Seq::new(a@.len(), |i: int| usize_text(a@[i])),
                    spaced(parts.take(i as int)) matches Some(text) ==> out@ == old(out)@ + text,
                decreases a.len() - i,
            {
                proof {
                    lemma_spaced_next(parts, i as int);
                }
                if i > 0 {
                    push_str(out, " ");
                }
                write_usize(out, a[i]);
                proof {
                    if let Some(text) = spaced(parts.take(i as int)) {
                        let last = usize_text(a@[i as int])->Some_0;
                        if i > 0 {
                            assert(out@ =~= old(out)@ + (text + " "@ + last));
                        } else {
                            assert(text =~= Seq::<char>::empty());
                            assert(out@ =~= old(out)@ + last);
                        }
                    }
                }
                i += 1;
            }
            assert(parts.take(a.len() as int) =~= parts);
        },
        Num::Float(Number::Array(a)) => {
            let ghost parts = Seq::new(a@.len(), |i: int| float_text(a@[i]));
            let mut i: usize = 0;
            while i < a.len()
                invariant
                    i <= a.len(),
                    parts == Seq::new(a@.len(), |i: int| float_text(a@[i])),
                    spaced(parts.take(i as int)) matches Some(text) ==> out@ == old(out)@ + text,
                decreases a.len() - i,
            {
                proof {
                    lemma_spaced_next(parts, i as int);
                }
                if i > 0 {
                    push_str(out, " ");
                }
                write_float(out, a[i], unit);
                proof {
                    if let Some(text) = spaced(parts.take(i as int)) {
                        if let Some(last) = float_text(a@[i as int]) {
                            if i > 0 {
                                assert(out@ =~= old(out)@ + (text + " "@ + last));
                            } else {
                                assert(text =~= Seq::<char>::empty());
                                assert(out@ =~= old(out)@ + last);
                            }
                        }
                    }
                }
                i += 1;
            }
            assert(parts.take(a.len() as int) =~= parts);
        },
    }
}

/// Whether an identity is pending.
fn is_pending(pending: &Vec<AnyFmt>, fmt: AnyFmt) -> (out: bool)
    ensures
        out == pending@.contains(fmt),
{
    let mut i: usize = 0;
    while i < pending.len()
        invariant
            i <= pending.len(),
            forall|j: int| 0 <= j < i ==> pending@[j] != fmt,
        decreases pending.len() - i,
    {
        if pending[i] == fmt {
            return true;
        }
        i += 1;
    }
    false
}

/// Appends the text of a list.
pub fn write_list<F: FloatUnit>(
    out: &mut Vec<char>,
    list: &List,
    store: &Store,
    unit: &F,
    pending: &mut Vec<AnyFmt>,
    fuel: usize,
)
    requires
        store.wf(),
    ensures
        final(pending)@ == old(pending)@,
        list_text(store@, *list, old(pending)@, fuel as nat) matches Some(text) ==> final(out)@
            == old(out)@ + text,
    decreases fuel, 0int,
{
    let all = match list.parent_frames(store) {
        Some(all) => all,
        None => {
            push_str(out, "-- Dropped --");
            return ;
        },
    };
    let fmt = AnyFmt::List(ListFmt::new(list.parent, list.start, list.len));
    if is_pending(pending, fmt) || fuel == 0 {
        push_str(out, "...");
        return ;
    }
    let ghost outer = pending@;
    let ghost inner = pending@.push(fmt);
    let ghost parts = Seq::new(
        list.len as nat,
        |i: int| frame_text(store@, views(all@)[list.start + i], inner, (fuel - 1) as nat),
    );
    pending.push(fmt);
    let mut i: usize = 0;
    while i < list.len
        invariant
            i <= list.len,
            store.wf(),
            list.start + list.len <= all.len(),
            fuel > 0,
            pending@ == inner,
            parts == Seq::new(
                list.len as nat,
                |i: int| frame_text(store@, views(all@)[list.start + i], inner, (fuel - 1) as nat),
            ),
            spaced(parts.take(i as int)) matches Some(text) ==> out@ == old(out)@ + text,
        decreases list.len - i,
    {
        proof {
            lemma_spaced_next(parts, i as int);
        }
        if i > 0 {
            push_str(out, " ");
        }
        let ghost mid = out@;
        write_frame(out, &all[list.start + i], store, unit, pending, fuel - 1);
        proof {
            assert(all[list.start + i]@ == views(all@)[list.start + i]);
            if let Some(text) = spaced(parts.take(i as int)) {
                if let Some(last) = parts[i as int] {
                    assert(out@ == mid + last);
                    if i > 0 {
                        assert(out@ =~= old(out)@ + (text + " "@ + last));
                    } else {
                        assert(text =~= Seq::<char>::empty());
                        assert(out@ =~= old(out)@ + last);
                    }
                }
            }
        }
        i += 1;
    }
    assert(parts.take(list.len as int) =~= parts);
    pending.pop();
    assert(pending@ =~= outer);
    proof {
        let backing = list.backing(store@)->Some_0;
        assert(fmt == identity(*list));
        assert(list_parts(store@, *list, backing, inner, (fuel - 1) as nat) =~= parts);
    }
}

/// Appends the text of a frame.
pub fn write_frame<F: FloatUnit>(
    out: &mut Vec<char>,
    frame: &Frame,
    store: &Store,
    unit: &F,
    pending: &mut Vec<AnyFmt>,
    fuel: usize,
)
    requires
        store.wf(),
    ensures
        final(pending)@ == old(pending)@,
        frame_text(store@, frame@, old(pending)@, fuel as nat) matches Some(text) ==> final(out)@
            == old(out)@ + text,
    decreases fuel, 1int,
{
    match frame {
        Frame::Null => push_str(out, "null"),
        Frame::Num(num) => write_num(out, num, unit),
        Frame::UnaryOp(op) => push_str(out, op.name()),
        Frame::BinaryOp(op) => push_str(out, op.name()),
        Frame::StackOp(op) => push_str(out, op.name()),
        Frame::NaryOp(op) => push_str(out, op.name()),
        Frame::VmOp(op) => push_str(out, op.name()),
        Frame::Active(Active::String(string)) => {
            push_str(out, "~(");
            push_str(out, string.as_str());
            push_str(out, ")");
            assert(out@ =~= old(out)@ + ("~("@ + string@ + ")"@));
        },
        Frame::Active(Active::Name(name)) => {
            push_str(out, "~/(");
            push_str(out, name.as_string().as_str());
            push_str(out, ")");
            assert(out@ =~= old(out)@ + ("~/("@ + name@ + ")"@));
        },
        Frame::Active(Active::Mark) => push_str(out, "{"),
        Frame::Active(Active::List(list)) => {
            push_str(out, "{ ");
            write_list(out, list, store, unit, pending, fuel);
            push_str(out, " }");
            proof {
                if let Some(text) = list_text(store@, *list, old(pending)@, fuel as nat) {
                    assert(out@ =~= old(out)@ + ("{ "@ + text + " }"@));
                }
            }
        },
        Frame::Passive(Passive::String(string)) => {
            push_str(out, "(");
            push_str(out, string.as_str());
            push_str(out, ")");
            assert(out@ =~= old(out)@ + ("("@ + string@ + ")"@));
        },
        Frame::Passive(Passive::Name(name)) => {
            push_str(out, "/(");
            push_str(out, name.as_string().as_str());
            push_str(out, ")");
            assert(out@ =~= old(out)@ + ("/("@ + name@ + ")"@));
        },
        Frame::Passive(Passive::Mark) => push_str(out, "["),
        Frame::Passive(Passive::List(list)) => {
            push_str(out, "[ ");
            write_list(out, list, store, unit, pending, fuel);
            push_str(out, " ]");
            proof {
                if let Some(text) = list_text(store@, *list, old(pending)@, fuel as nat) {
                    assert(out@ =~= old(out)@ + ("[ "@ + text + " ]"@));
                }
            }
        },
    }
}

/// The text of a frame on its own: no list is pending, and lists print as
/// deep as they go.
pub open spec fn shown(store: Seq<SlotView>, frame: FrameView) -> Option<Seq<char>> {
    frame_text(store, frame, Seq::empty(), usize::MAX as nat)
}

/// The text that prints a frame.
pub fn show_frame<F: FloatUnit>(frame: &Frame, store: &Store, unit: &F) -> (out: String)
    requires
        store.wf(),
    ensures
        shown(store@, frame@) matches Some(text) ==> out@ == text,
{
    let mut out: Vec<char> = Vec::new();
    let mut pending: Vec<AnyFmt> = Vec::new();
    write_frame(&mut out, frame, store, unit, &mut pending, usize::MAX);
    proof {
        if let Some(text) = shown(store@, frame@) {
            assert(out@ =~= text);
        }
    }
    string_of(&out)
}

/// The text of one entry of a dictionary: the name after a slash, and the
/// frame that it is bound to.
pub open spec fn entry_text(name: Seq<char>, frame: Option<Seq<char>>) -> Option<Seq<char>> {
    match frame {
        Some(text) => Some("/"@ + name + " "@ + text),
        None => None,
    }
}

/// The texts of the entries of a dictionary, in the order in which their
/// names were first bound.
pub open spec fn dict_parts(
    store: Seq<SlotView>,
    map: Map<Seq<char>, FrameView>,
    order: Seq<Seq<char>>,
    pending: Seq<AnyFmt>,
    fuel: nat,
) -> Seq<Option<Seq<char>>> {
    Seq::new(
        order.len(),
        |i: int| entry_text(order[i], frame_text(store, map[order[i]], pending, fuel)),
    )
}

/// The text of a dictionary: `-- Dropped --` once its slot has been
/// released, `...` while it is pending, and else the texts of its entries
/// with spaces between them.
pub open spec fn dict_text(
    store: Seq<SlotView>,
    dict: Dict,
    pending: Seq<AnyFmt>,
    fuel: nat,
) -> Option<Seq<char>> {
    match dict.map(store) {
        None => Some("-- Dropped --"@),
        Some(map) => if pending.contains(AnyFmt::Dict(DictFmt { parent: dict.parent })) {
            Some("..."@)
        } else {
            spaced(
                dict_parts(
                    store,
                    map,
                    dict.order(store)->Some_0,
                    pending.push(AnyFmt::Dict(DictFmt { parent: dict.parent })),
                    fuel,
                ),
            )
        },
    }
}

/// Appends the text of a dictionary.
pub fn write_dict<F: FloatUnit>(
    out: &mut Vec<char>,
    dict: &Dict,
    store: &Store,
    unit: &F,
    pending: &mut Vec<AnyFmt>,
    fuel: usize,
)
    requires
        store.wf(),
    ensures
        final(pending)@ == old(pending)@,
        dict_text(store@, *dict, old(pending)@, fuel as nat) matches Some(text) ==> final(out)@
            == old(out)@ + text,
{
    let map = match dict.parent_map(store) {
        Some(map) => map,
        None => {
            push_str(out, "-- Dropped --");
            return ;
        },
    };
    let fmt = AnyFmt::Dict(DictFmt::new(dict.parent));
    if is_pending(pending, fmt) {
        push_str(out, "...");
        return ;
    }
    let ghost outer = pending@;
    let ghost inner = pending@.push(fmt);
    let ghost parts = dict_parts(store@, map@, map.names(), inner, fuel as nat);
    pending.push(fmt);
    let n = map.len();
    let mut i: usize = 0;
    while i < n
        invariant
            i <= n,
            n == map.names().len(),
            store.wf(),
            map.wf(),
            pending@ == inner,
            parts == dict_parts(store@, map@, map.names(), inner, fuel as nat),
            spaced(parts.take(i as int)) matches Some(text) ==> out@ == old(out)@ + text,
        decreases n - i,
    {
        proof {
            lemma_spaced_next(parts, i as int);
        }
        if i > 0 {
            push_str(out, " ");
        }
        let ghost mid = out@;
        let (name, frame) = map.entry(i);
        push_str(out, "/");
        push_str(out, name.as_string().as_str());
        push_str(out, " ");
        let ghost named = out@;
        write_frame(out, frame, store, unit, pending, fuel);
        proof {
            if let Some(text) = spaced(parts.take(i as int)) {
                if let Some(last) = parts[i as int] {
                    let shown = frame_text(store@, frame@, inner, fuel as nat)->Some_0;
                    assert(last == "/"@ + name@ + " "@ + shown);
                    assert(out@ =~= mid + last);
                    if i > 0 {
                        assert(out@ =~= old(out)@ + (text + " "@ + last));
                    } else {
                        assert(text =~= Seq::<char>::empty());
                        assert(out@ =~= old(out)@ + last);
                    }
                }
            }
        }
        i += 1;
    }
    assert(parts.take(n as int) =~= parts);
    pending.pop();
    assert(pending@ =~= outer);
}

/// The text that prints a dictionary.
pub fn show_dict<F: FloatUnit>(dict: &Dict, store: &Store, unit: &F) -> (out: String)
    requires
        store.wf(),
    ensures
        dict_text(store@, *dict, Seq::empty(), usize::MAX as nat) matches Some(text) ==> out@
            == text,
{
    let mut out: Vec<char> = Vec::new();
    let mut pending: Vec<AnyFmt> = Vec::new();
    write_dict(&mut out, dict, store, unit, &mut pending, usize::MAX);
    proof {
        if let Some(text) = dict_text(store@, *dict, Seq::empty(), usize::MAX as nat) {
            assert(out@ =~= text);
        }
    }
    string_of(&out)
}

} // verus!
