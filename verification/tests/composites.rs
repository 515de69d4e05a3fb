use deuterostome::error::Error;
use deuterostome::numeric::float::{Float, FloatUnit};
use deuterostome::numeric::{Number, NumericValue};
use deuterostome::render::{show_dict, show_frame};
use deuterostome::types::dict::{Dict, DictFmt, DictMap};
use deuterostome::types::list::{List, ListFmt};
use deuterostome::types::name::InternTable;
use deuterostome::types::num::Num;
use deuterostome::types::savable::{AnyFmt, HasNew, Intern, Saved, Unwrap};
use deuterostome::types::save::{Save, SaveBox, Store};
use deuterostome::vm::frame::{copy_frames, Active, Frame, Passive};
use deuterostome::vm::optypes::{BinaryOp, NaryOp, StackOp, UnaryOp, VmOp};

struct Ieee;

fn checked(value: f64) -> Option<Float> {
    if value.is_finite() {
        Some(Float { bits: value.to_bits() })
    } else {
        None
    }
}

impl FloatUnit for Ieee {
    fn add(&self, lhs: Float, rhs: Float) -> Option<Float> {
        checked(f64::from_bits(lhs.bits) + f64::from_bits(rhs.bits))
    }

    fn sub(&self, lhs: Float, rhs: Float) -> Option<Float> {
        checked(f64::from_bits(lhs.bits) - f64::from_bits(rhs.bits))
    }

    fn mul(&self, lhs: Float, rhs: Float) -> Option<Float> {
        checked(f64::from_bits(lhs.bits) * f64::from_bits(rhs.bits))
    }

    fn div(&self, lhs: Float, rhs: Float) -> Option<Float> {
        checked(f64::from_bits(lhs.bits) / f64::from_bits(rhs.bits))
    }

    fn neg(&self, value: Float) -> Option<Float> {
        Some(Float { bits: (-f64::from_bits(value.bits)).to_bits() })
    }

    fn cos(&self, value: Float) -> Option<Float> {
        Some(Float { bits: f64::from_bits(value.bits).cos().to_bits() })
    }

    fn from_int(&self, value: i64) -> Float {
        Float { bits: (value as f64).to_bits() }
    }

    fn from_usize(&self, value: usize) -> Float {
        Float { bits: (value as f64).to_bits() }
    }

    fn to_int(&self, value: Float) -> Option<i64> {
        let f = f64::from_bits(value.bits);
        if !f.is_finite() || f > i64::MAX as f64 || f < i64::MIN as f64 {
            None
        } else {
            Some(f.round() as i64)
        }
    }

    fn to_usize(&self, value: Float) -> Option<usize> {
        let f = f64::from_bits(value.bits);
        if !f.is_finite() || f > usize::MAX as f64 || f < usize::MIN as f64 {
            None
        } else {
            Some(f.round() as usize)
        }
    }

    fn parse(&self, text: &str) -> Option<Float> {
        match text.parse::<f64>() {
            Ok(value) => Some(Float { bits: value.to_bits() }),
            Err(_) => None,
        }
    }

    fn show(&self, value: Float) -> String {
        format!("{}", f64::from_bits(value.bits))
    }
}

fn int_frame(i: i64) -> Frame {
    Frame::Num(Num::Int(Number::Scalar(NumericValue::Value(i))))
}

fn three(store: &mut Store) -> List {
    let mut base = SaveBox::base();
    base.put(store, vec![int_frame(1), int_frame(2), int_frame(3)]).unwrap()
}

#[test]
fn interning_gives_one_name_per_string() {
    let mut table = InternTable::new();
    let a = table.intern(String::from("alpha"));
    let b = table.intern(String::from("alpha"));
    let c = table.intern(String::from("beta"));
    assert_eq!(a, b);
    assert!(a.same(&b));
    assert_ne!(a, c);
    assert!(!a.same(&c));
    assert!(a.denotes(&String::from("alpha")));
    assert!(!a.denotes(&String::from("beta")));
    assert_eq!(a.as_string(), "alpha");
    assert_eq!(a.share(), b);
    assert_eq!(c.into_string(), String::from("beta"));
}

#[test]
fn the_table_holds_what_is_interned_until_it_is_removed() {
    let mut table = InternTable::new();
    assert!(!table.holds(&String::from("alpha")));
    let a = table.intern(String::from("alpha"));
    let _ = table.intern(String::from("beta"));
    assert!(table.holds(&String::from("alpha")));
    table.remove(&String::from("alpha"));
    assert!(!table.holds(&String::from("alpha")));
    assert!(table.holds(&String::from("beta")));
    table.remove(&String::from("gamma"));
    assert!(table.holds(&String::from("beta")));
    let again = table.intern(String::from("alpha"));
    assert_eq!(a, again);
    assert!(table.holds(&String::from("alpha")));
}

#[test]
fn a_list_covers_what_was_put() {
    let mut store = Store::new();
    let list = three(&mut store);
    assert_eq!(list, List { parent: 1, start: 0, len: 3 });
    assert_eq!(list.len(&store), Ok(3));
    assert_eq!(list.get(&store, 0), Ok(int_frame(1)));
    assert_eq!(list.get(&store, 2), Ok(int_frame(3)));
    assert_eq!(list.get(&store, 3), Err(Error::Range { len: 3, index: 3 }));
    assert_eq!(store.len(), 2);
}

#[test]
fn put_then_get_gives_what_was_put() {
    let mut store = Store::new();
    let mut list = three(&mut store);
    assert_eq!(list.put(&mut store, 1, Frame::Null), None);
    assert_eq!(list.get(&store, 1), Ok(Frame::Null));
    assert_eq!(list.get(&store, 0), Ok(int_frame(1)));
    assert_eq!(list.get(&store, 2), Ok(int_frame(3)));
    assert_eq!(list.len(&store), Ok(3));
    assert_eq!(list.put(&mut store, 3, Frame::Null), Some(Error::Range { len: 3, index: 3 }));
    assert_eq!(list.len(&store), Ok(3));
}

#[test]
fn sublists_share_the_frames() {
    let mut store = Store::new();
    let mut list = three(&mut store);
    let mut tail = list.range(&store, 1, 2).unwrap();
    assert_eq!(tail, List { parent: 1, start: 1, len: 2 });
    assert_eq!(tail.get(&store, 0), Ok(int_frame(2)));
    assert_eq!(tail.put(&mut store, 1, int_frame(30)), None);
    assert_eq!(list.get(&store, 2), Ok(int_frame(30)));
    assert_eq!(list.put(&mut store, 1, int_frame(20)), None);
    assert_eq!(tail.get(&store, 0), Ok(int_frame(20)));
    let last = tail.range(&store, 1, 1).unwrap();
    assert_eq!(last, List { parent: 1, start: 2, len: 1 });
    assert_eq!(last.get(&store, 0), Ok(int_frame(30)));
    assert_eq!(list.range(&store, 3, 0), Ok(List { parent: 1, start: 3, len: 0 }));
}

#[test]
fn ranges_outside_the_list_are_refused() {
    let mut store = Store::new();
    let list = three(&mut store);
    assert_eq!(list.range(&store, 2, 2), Err(Error::Range { len: 3, index: 4 }));
    assert_eq!(list.range(&store, 4, 0), Err(Error::Range { len: 3, index: 4 }));
    assert_eq!(
        list.range(&store, usize::MAX, 2),
        Err(Error::Range { len: 3, index: usize::MAX })
    );
}

#[test]
fn release_drops_every_view() {
    let mut store = Store::new();
    let mut base = SaveBox::base();
    let kept = base.put(&mut store, vec![int_frame(0)]).unwrap();
    let mut inner = base.put(&mut store, Save::new()).unwrap();
    let mut list = inner.put(&mut store, vec![int_frame(1), int_frame(2)]).unwrap();
    let mut dict = inner.put(&mut store, DictMap::new()).unwrap();
    let mut deeper = inner.put(&mut store, Save::new()).unwrap();
    let deep = deeper.put(&mut store, vec![Frame::Null]).unwrap();
    let sub = list.range(&store, 1, 1).unwrap();
    assert_eq!(inner.len(&store), Ok(3));
    assert_eq!(base.len(&store), Ok(2));
    let mut names = InternTable::new();
    let key = names.intern(String::from("key"));

    assert!(store.release(&inner));

    assert_eq!(list.len(&store), Err(Error::Dropped));
    assert_eq!(list.get(&store, 0), Err(Error::Dropped));
    assert_eq!(list.put(&mut store, 0, Frame::Null), Some(Error::Dropped));
    assert_eq!(list.range(&store, 0, 1), Err(Error::Dropped));
    assert_eq!(sub.get(&store, 0), Err(Error::Dropped));
    assert_eq!(deep.len(&store), Err(Error::Dropped));
    assert_eq!(dict.len(&store), Err(Error::Dropped));
    assert_eq!(dict.find(&store, &key), Err(Error::Dropped));
    assert_eq!(dict.get(&store, key.share()), Err(Error::Dropped));
    assert_eq!(dict.put(&mut store, key, Frame::Null), Some(Error::Dropped));
    assert_eq!(inner.len(&store), Err(Error::Dropped));
    assert_eq!(deeper.len(&store), Err(Error::Dropped));
    assert_eq!(inner.put(&mut store, vec![Frame::Null]), Err(Error::Dropped));
    assert_eq!(inner.show(&store), "-- Dropped --");

    assert_eq!(kept.get(&store, 0), Ok(int_frame(0)));
    assert_eq!(base.len(&store), Ok(2));
    assert_eq!(base.show(&store), "len=2");
    assert_eq!(list.get(&store, 2), Err(Error::Dropped));
}

#[test]
fn the_base_savebox_is_never_released() {
    let mut store = Store::new();
    let list = three(&mut store);
    assert!(!store.release(&SaveBox::base()));
    assert!(!store.release(&SaveBox { parent: 7 }));
    assert_eq!(list.len(&store), Ok(3));
    assert_eq!(SaveBox::base().len(&store), Ok(1));
}

#[test]
fn views_of_no_slot_are_dropped() {
    let mut store = Store::new();
    let mut list = three(&mut store);
    let stranger = List { parent: 9, start: 0, len: 1 };
    assert_eq!(stranger.get(&store, 0), Err(Error::Dropped));
    let wider = List { parent: list.parent, start: 2, len: 5 };
    assert_eq!(wider.get(&store, 0), Err(Error::Dropped));
    let not_a_list = List { parent: 0, start: 0, len: 0 };
    assert_eq!(not_a_list.len(&store), Err(Error::Dropped));
    let not_a_dict = Dict { parent: list.parent };
    assert_eq!(not_a_dict.len(&store), Err(Error::Dropped));
    assert_eq!(list.put(&mut store, 0, Frame::Null), None);
}

#[test]
fn dictionaries_bind_names() {
    let mut store = Store::new();
    let mut names = InternTable::new();
    let mut base = SaveBox::base();
    let mut dict = base.put(&mut store, DictMap::new()).unwrap();
    let a = names.intern(String::from("a"));
    let b = names.intern(String::from("b"));
    assert_eq!(dict.len(&store), Ok(0));
    assert_eq!(dict.find(&store, &a), Ok(None));
    assert_eq!(dict.get(&store, a.share()), Err(Error::MissingKey(String::from("a"))));
    assert_eq!(dict.put(&mut store, a.share(), int_frame(1)), None);
    assert_eq!(dict.put(&mut store, b.share(), int_frame(2)), None);
    assert_eq!(dict.get(&store, a.share()), Ok(int_frame(1)));
    assert_eq!(dict.put(&mut store, a.share(), int_frame(3)), None);
    assert_eq!(dict.find(&store, &a), Ok(Some(int_frame(3))));
    assert_eq!(dict.find(&store, &b), Ok(Some(int_frame(2))));
    assert_eq!(dict.len(&store), Ok(2));
}

#[test]
fn maps_keep_one_entry_per_name() {
    let mut names = InternTable::new();
    let mut map = DictMap::new();
    let a = names.intern(String::from("a"));
    let b = names.intern(String::from("b"));
    map.insert(a.share(), int_frame(1));
    map.insert(b.share(), int_frame(2));
    map.insert(a.share(), int_frame(3));
    assert_eq!(map.len(), 2);
    assert_eq!(map.entry(0), (&a, &int_frame(3)));
    assert_eq!(map.entry(1), (&b, &int_frame(2)));
    assert_eq!(map.find(&a), Some(int_frame(3)));
    assert_eq!(map.find(&names.intern(String::from("c"))), None);
}

#[test]
fn slots_hold_one_kind_of_object() {
    let frames = vec![int_frame(1)];
    let saved = frames.clone().wrap();
    let held: &Vec<Frame> = saved.unwrap();
    assert_eq!(held, &frames);
    assert_eq!(<List as HasNew>::new(4, &saved), List { parent: 4, start: 0, len: 1 });
    let saved = DictMap::new().wrap();
    let held: &DictMap = saved.unwrap();
    assert_eq!(held.len(), 0);
    assert_eq!(<Dict as HasNew>::new(5, &saved), Dict { parent: 5 });
    let mut save = Save::new();
    save.insert(3);
    assert_eq!(save.len(), 1);
    let saved = save.wrap();
    assert!(matches!(saved, Saved::Save(_)));
    let held: &Save = saved.unwrap();
    assert_eq!(held.len(), 1);
    assert_eq!(<SaveBox as HasNew>::new(6, &saved).weak_parent(), 6);
    assert_eq!(List { parent: 4, start: 1, len: 2 }.weak_parent(), 4);
    assert_eq!(Dict { parent: 5 }.weak_parent(), 5);
}

#[test]
fn slots_are_taken_and_set() {
    let mut store = Store::new();
    let list = three(&mut store);
    let saved = store.take(list.parent);
    assert!(store.get(list.parent).is_none());
    assert_eq!(list.len(&store), Err(Error::Dropped));
    store.set(list.parent, saved);
    assert!(store.get(list.parent).is_some());
    assert_eq!(list.len(&store), Ok(3));
    assert!(store.get(9).is_none());
}

#[test]
fn identities_compare_by_slot_and_window() {
    let a = AnyFmt::List(ListFmt::new(1, 0, 3));
    let b = AnyFmt::List(ListFmt::new(1, 0, 3));
    let c = AnyFmt::List(ListFmt::new(1, 1, 2));
    let d = AnyFmt::Dict(DictFmt::new(1));
    assert_eq!(a, b);
    assert_ne!(a, c);
    assert_ne!(a, d);
    assert_eq!(d, AnyFmt::Dict(DictFmt { parent: 1 }));
}

#[test]
fn frames_print_by_their_kind() {
    let mut store = Store::new();
    let list = three(&mut store);
    let mut names = InternTable::new();
    let name = names.intern(String::from("n"));
    let shown = |frame: Frame| show_frame(&frame, &store, &Ieee);
    assert_eq!(shown(Frame::Null), "null");
    assert_eq!(shown(int_frame(-42)), "-42");
    assert_eq!(shown(int_frame(0)), "0");
    assert_eq!(shown(int_frame(i64::MIN)), "-9223372036854775808");
    assert_eq!(shown(Frame::Num(Num::USize(Number::Scalar(NumericValue::Value(1234567890))))), "1234567890");
    assert_eq!(shown(Frame::Num(Num::Int(Number::Scalar(NumericValue::NaN)))), "*");
    assert_eq!(
        shown(Frame::Num(Num::Int(Number::Array(vec![
            NumericValue::Value(1),
            NumericValue::NaN,
            NumericValue::Value(-3),
        ])))),
        "1 * -3"
    );
    assert_eq!(shown(Frame::Num(Num::USize(Number::Array(vec![])))), "");
    assert_eq!(
        shown(Frame::Num(Num::Float(Number::Array(vec![
            NumericValue::Value(Float { bits: 1.5f64.to_bits() }),
            NumericValue::NaN,
        ])))),
        "1.5 *"
    );
    assert_eq!(shown(Frame::UnaryOp(UnaryOp::Cos)), "cos");
    assert_eq!(shown(Frame::BinaryOp(BinaryOp::Div)), "div");
    assert_eq!(shown(Frame::NaryOp(NaryOp::GetInterval)), "getinterval");
    assert_eq!(shown(Frame::StackOp(StackOp::Clear)), "clear");
    assert_eq!(shown(Frame::VmOp(VmOp::VmStatus)), "vmstats");
    assert_eq!(shown(Frame::Active(Active::String(String::from("s")))), "~(s)");
    assert_eq!(shown(Frame::Active(Active::Name(name.share()))), "~/(n)");
    assert_eq!(shown(Frame::Active(Active::Mark)), "{");
    assert_eq!(shown(Frame::Active(Active::List(list))), "{ 1 2 3 }");
    assert_eq!(shown(Frame::Passive(Passive::String(String::from("s")))), "(s)");
    assert_eq!(shown(Frame::Passive(Passive::Name(name))), "/(n)");
    assert_eq!(shown(Frame::Passive(Passive::Mark)), "[");
    assert_eq!(shown(Frame::Passive(Passive::List(list))), "[ 1 2 3 ]");
    assert_eq!(shown(Frame::Passive(Passive::List(List { parent: 1, start: 3, len: 0 }))), "[  ]");
    assert_eq!(shown(Frame::Passive(Passive::List(List { parent: 5, start: 0, len: 0 }))), "[ -- Dropped -- ]");
}

#[test]
fn lists_that_hold_each_other_print_to_the_first_return() {
    let mut store = Store::new();
    let mut base = SaveBox::base();
    let mut a = base.put(&mut store, vec![int_frame(1), Frame::Null]).unwrap();
    let mut b = base.put(&mut store, vec![Frame::Null, int_frame(2)]).unwrap();
    assert_eq!(a.put(&mut store, 1, Frame::Passive(Passive::List(b))), None);
    assert_eq!(b.put(&mut store, 0, Frame::Active(Active::List(a))), None);
    assert_eq!(
        show_frame(&Frame::Passive(Passive::List(a)), &store, &Ieee),
        "[ 1 [ { ... } 2 ] ]"
    );
    let tail = a.range(&store, 1, 1).unwrap();
    assert_eq!(
        show_frame(&Frame::Passive(Passive::List(tail)), &store, &Ieee),
        "[ [ { 1 [ ... ] } 2 ] ]"
    );
}

#[test]
fn frames_copy_with_their_content() {
    let frames = vec![
        int_frame(1),
        Frame::Passive(Passive::String(String::from("s"))),
        Frame::Active(Active::Mark),
        Frame::Num(Num::Float(Number::Array(vec![NumericValue::NaN]))),
    ];
    assert_eq!(copy_frames(&frames), frames);
    assert_eq!(frames[1].copy(), frames[1]);
}

#[test]
fn errors_have_messages() {
    assert_eq!(Error::Quit.message(), "Quitting");
    assert_eq!(Error::StackUnderflow.message(), "Stack underflow");
    assert_eq!(Error::OpType.message(), "Illegal operand type");
    assert_eq!(Error::Unknown(String::from("x")).message(), "Unknown name x");
    assert_eq!(
        Error::IntParse(String::from("99")).message(),
        "Int parsing error: number too large to fit in target type (99)"
    );
    assert_eq!(
        Error::IntParse(String::from("-99")).message(),
        "Int parsing error: number too small to fit in target type (-99)"
    );
    assert_eq!(
        Error::FloatParse(String::from("1.5")).message(),
        "Float parsing error: invalid float literal (1.5)"
    );
    assert_eq!(
        Error::USizeParse(String::from("99")).message(),
        "USize parsing error: number too large to fit in target type (99)"
    );
    assert_eq!(Error::IllegalSym(String::from(")")).message(), "Illegal symbol: )");
    assert_eq!(Error::Illformed(String::from("x 2")).message(), "Illformed string: x 2");
    assert_eq!(
        Error::Range { len: 3, index: 10 }.message(),
        "Illegal range: len(3), index(10)"
    );
    assert_eq!(Error::IllNeg.message(), "Illegal negative in range");
    assert_eq!(Error::IllNan.message(), "Illegal NaN in range");
    assert_eq!(Error::Dropped.message(), "Illegal reference to dropped object");
    assert_eq!(Error::MissingKey(String::from("k")).message(), "Missing key k in Dict");
    assert_eq!(Error::LengthMismatch.message(), "Length mismatch of arrays");
    assert!(Error::Quit.is_quit());
    assert!(!Error::Dropped.is_quit());
}

#[test]
fn dictionaries_print_their_entries_in_the_order_of_binding() {
    let mut store = Store::new();
    let mut names = InternTable::new();
    let mut base = SaveBox::base();
    let list = base.put(&mut store, vec![int_frame(1), int_frame(2)]).unwrap();
    let mut dict = base.put(&mut store, DictMap::new()).unwrap();
    assert_eq!(show_dict(&dict, &store, &Ieee), "");
    let b = names.intern(String::from("b"));
    let a = names.intern(String::from("a"));
    assert_eq!(dict.put(&mut store, b.share(), int_frame(2)), None);
    assert_eq!(dict.put(&mut store, a, Frame::Passive(Passive::List(list))), None);
    assert_eq!(dict.put(&mut store, b, Frame::Null), None);
    assert_eq!(show_dict(&dict, &store, &Ieee), "/b null /a [ 1 2 ]");
    assert_eq!(show_dict(&Dict { parent: 9 }, &store, &Ieee), "-- Dropped --");
    assert_eq!(show_dict(&Dict { parent: list.parent }, &store, &Ieee), "-- Dropped --");
}

#[test]
fn strings_that_no_name_shares_are_evicted() {
    let mut table = InternTable::new();
    let kept = table.intern(String::from("kept"));
    let shared = table.intern(String::from("shared"));
    let sharer = shared.share();
    drop(shared);
    drop(table.intern(String::from("gone")));
    assert!(table.holds(&String::from("gone")));
    table.evict();
    assert!(table.holds(&String::from("kept")));
    assert!(table.holds(&String::from("shared")));
    assert!(!table.holds(&String::from("gone")));
    drop(kept);
    table.evict();
    assert!(!table.holds(&String::from("kept")));
    assert!(table.holds(&String::from("shared")));
    assert!(sharer.denotes(&String::from("shared")));
    drop(sharer);
    table.evict();
    assert!(!table.holds(&String::from("shared")));
}

#[test]
fn the_content_of_a_slot_can_be_changed_in_place() {
    let mut saved = vec![int_frame(1)].wrap();
    let held: &mut Vec<Frame> = saved.unwrap_mut();
    held[0] = int_frame(2);
    let held: &Vec<Frame> = saved.unwrap();
    assert_eq!(held, &vec![int_frame(2)]);
    let mut saved = Save::new().wrap();
    let held: &mut Save = saved.unwrap_mut();
    held.insert(4);
    let held: &Save = saved.unwrap();
    assert_eq!(held.len(), 1);
    let mut names = InternTable::new();
    let mut saved = DictMap::new().wrap();
    let held: &mut DictMap = saved.unwrap_mut();
    held.insert(names.intern(String::from("k")), Frame::Null);
    let held: &DictMap = saved.unwrap();
    assert_eq!(held.len(), 1);
}

#[test]
fn entries_with_no_holder_but_the_table_are_evicted() {
    let mut table = InternTable::new();
    assert_eq!(table.len(), 0);
    let _a = table.intern(String::from("a"));
    let _b = table.intern(String::from("b"));
    let _c = table.intern(String::from("c"));
    let _d = table.intern(String::from("d"));
    assert_eq!(table.len(), 4);
    table.evict_unshared(&vec![2, 1, 0, 5]);
    assert_eq!(table.len(), 2);
    assert!(table.holds(&String::from("a")));
    assert!(!table.holds(&String::from("b")));
    assert!(!table.holds(&String::from("c")));
    assert!(table.holds(&String::from("d")));
    table.evict_unshared(&vec![1, 1]);
    assert_eq!(table.len(), 0);
    table.evict_unshared(&vec![]);
    assert_eq!(table.len(), 0);
    let again = table.intern(String::from("b"));
    assert!(again.same(&_b));
    table.evict();
    assert_eq!(table.len(), 1);
}

#[test]
fn a_released_list_answers_dropped_whatever_the_arguments() {
    let mut store = Store::new();
    let mut base = SaveBox::base();
    let mut inner = base.put(&mut store, Save::new()).unwrap();
    let mut list = inner.put(&mut store, vec![Frame::Null, Frame::Null]).unwrap();
    assert_eq!(list.get(&store, 2), Err(Error::Range { len: 2, index: 2 }));
    assert_eq!(list.put(&mut store, 5, Frame::Null), Some(Error::Range { len: 2, index: 5 }));
    assert_eq!(list.range(&store, 1, 2), Err(Error::Range { len: 2, index: 3 }));
    assert!(store.release(&inner));
    for index in [0, 1, 2, 3, 100, usize::MAX] {
        assert_eq!(list.get(&store, index), Err(Error::Dropped));
        assert_eq!(list.put(&mut store, index, Frame::Null), Some(Error::Dropped));
        assert_eq!(list.range(&store, index, 0), Err(Error::Dropped));
        assert_eq!(list.range(&store, 0, index), Err(Error::Dropped));
        assert_eq!(list.range(&store, index, index), Err(Error::Dropped));
    }
    assert_eq!(list.len(&store), Err(Error::Dropped));
}
