use deuterostome::error::Error;
use deuterostome::numeric::float::{Float, FloatUnit};
use deuterostome::numeric::{Number, NumericValue};
use deuterostome::reader::Reader;
use deuterostome::types::num::Num;
use deuterostome::vm::binaryops::{ADD, SUB};
use deuterostome::vm::frame::{Active, Frame, Passive};
use deuterostome::vm::naryops::DUP;
use deuterostome::vm::optypes::VmOp;
use deuterostome::vm::unaryops::NEG;
use deuterostome::vm::{Run, Vm};

struct Ieee;

fn checked(value: f64) -> Option<Float> {
    if value.is_finite() {
        Some(Float { bits: value.to_bits() })
    } else {
        None
    }
}

impl FloatUnit for Ieee {
    fn add(&self, lhs: Float, rhs: Float) -> Option<Float> {
        checked(f64::from_bits(lhs.bits) + f64::from_bits(rhs.bits))
    }

    fn sub(&self, lhs: Float, rhs: Float) -> Option<Float> {
        checked(f64::from_bits(lhs.bits) - f64::from_bits(rhs.bits))
    }

    fn mul(&self, lhs: Float, rhs: Float) -> Option<Float> {
        checked(f64::from_bits(lhs.bits) * f64::from_bits(rhs.bits))
    }

    fn div(&self, lhs: Float, rhs: Float) -> Option<Float> {
        checked(f64::from_bits(lhs.bits) / f64::from_bits(rhs.bits))
    }

    fn neg(&self, value: Float) -> Option<Float> {
        Some(Float { bits: (-f64::from_bits(value.bits)).to_bits() })
    }

    fn cos(&self, value: Float) -> Option<Float> {
        Some(Float { bits: f64::from_bits(value.bits).cos().to_bits() })
    }

    fn from_int(&self, value: i64) -> Float {
        Float { bits: (value as f64).to_bits() }
    }

    fn from_usize(&self, value: usize) -> Float {
        Float { bits: (value as f64).to_bits() }
    }

    fn to_int(&self, value: Float) -> Option<i64> {
        let f = f64::from_bits(value.bits);
        if !f.is_finite() || f > i64::MAX as f64 || f < i64::MIN as f64 {
            None
        } else {
            Some(f.round() as i64)
        }
    }

    fn to_usize(&self, value: Float) -> Option<usize> {
        let f = f64::from_bits(value.bits);
        if !f.is_finite() || f > usize::MAX as f64 || f < usize::MIN as f64 {
            None
        } else {
            Some(f.round() as usize)
        }
    }

    fn parse(&self, text: &str) -> Option<Float> {
        match text.parse::<f64>() {
            Ok(value) => Some(Float { bits: value.to_bits() }),
            Err(_) => None,
        }
    }

    fn show(&self, value: Float) -> String {
        format!("{}", f64::from_bits(value.bits))
    }
}

const BUDGET: u64 = 1_000_000;

fn int_frame(i: i64) -> Frame {
    Num::Int(Number::Scalar(NumericValue::Value(i))).into()
}

fn usize_frame(i: usize) -> Frame {
    Frame::Num(Num::USize(Number::Scalar(NumericValue::Value(i))))
}

fn exec(vm: &mut Vm<Ieee>, frames: Vec<Frame>) -> Result<Option<Frame>, Error> {
    match vm.exec(frames, BUDGET) {
        Ok(Run::Done(top)) => Ok(top),
        Ok(Run::Paused) => panic!("The budget is spent"),
        Err(e) => Err(e),
    }
}

fn run(vm: &mut Vm<Ieee>, text: &str) -> Result<Option<Frame>, Error> {
    let mut reader = Reader::new();
    match reader.parse(vm, String::from(text)) {
        Err(e) => panic!("Parse error: {e:?}"),
        Ok(frames) => exec(vm, frames),
    }
}

fn top(vm: &mut Vm<Ieee>, text: &str) -> Frame {
    match run(vm, text) {
        Err(e) => panic!("Error {e:?}"),
        Ok(None) => panic!("Empty stack"),
        Ok(Some(frame)) => frame,
    }
}

#[test]
fn rpn_result() {
    let mut vm = Vm::new(Ieee);

    let cmd: Vec<Frame> = vec![
        int_frame(3),
        int_frame(1),
        ADD.into(),
        NEG.into(),
        int_frame(2),
        SUB.into(),
        NEG.into(),
    ];
    let None = vm.result(cmd, BUDGET) else { panic!("Result: error") };

    let mut reader = Reader::new();
    let Some(frames) = reader.result(&mut vm, String::from("1 2 add 3 sub")) else {
        panic!("Result: read error")
    };
    let None = vm.result(frames, BUDGET) else { panic!("Result: error") };
    assert_eq!(vm.take_output(), vec![String::from("Result: 6"), String::from("Result: 0")]);
}

#[test]
fn rpn_exec() {
    let mut vm = Vm::new(Ieee);
    let frames: Vec<Frame> = vec![
        int_frame(3),
        int_frame(1),
        ADD.into(),
        NEG.into(),
        int_frame(2),
        SUB.into(),
        NEG.into(),
    ];
    match exec(&mut vm, frames) {
        Err(e) => panic!("Error {e:?}"),
        Ok(None) => panic!("Empty stack"),
        Ok(Some(frame)) => assert_eq!(int_frame(6), frame),
    };

    let mut reader = Reader::new();
    match reader.parse(&mut vm, String::from("1 2 add 4 sub")) {
        Err(e) => panic!("Parse error: {e:?}"),
        Ok(frames) => match exec(&mut vm, frames) {
            Err(e) => panic!("Error {e:?}"),
            Ok(None) => panic!("Empty stack"),
            Ok(Some(frame)) => assert_eq!(int_frame(-1), frame),
        },
    };
}

#[test]
fn rpn_stacked() {
    let mut vm = Vm::new(Ieee);
    let frames: Vec<Frame> = vec![
        int_frame(3),
        DUP.into(),
        ADD.into(),
        NEG.into(),
        int_frame(2),
        SUB.into(),
        NEG.into(),
    ];
    match exec(&mut vm, frames) {
        Err(e) => panic!("Error {e:?}"),
        Ok(None) => panic!("Empty stack"),
        Ok(Some(frame)) => assert_eq!(int_frame(8), frame),
    };

    let mut reader = Reader::new();
    match reader.parse(&mut vm, String::from("1 dup add 4 pop dup sub")) {
        Err(e) => panic!("Parse error: {e:?}"),
        Ok(frames) => match exec(&mut vm, frames) {
            Err(e) => panic!("Error {e:?}"),
            Ok(None) => panic!("Empty stack"),
            Ok(Some(frame)) => assert_eq!(int_frame(0), frame),
        },
    };
}

#[test]
fn tests_result() {
    let vm = &mut Vm::new(Ieee);

    let cmd: Vec<Frame> = vec![
        int_frame(3),
        int_frame(1),
        ADD.into(),
        NEG.into(),
        int_frame(2),
        SUB.into(),
        NEG.into(),
    ];
    let None = vm.result(cmd, BUDGET) else { panic!("Result: error") };

    let mut reader = Reader::new();
    let Some(frames) = reader.result(vm, String::from("1 2 add 3 sub")) else {
        panic!("Result: read error")
    };
    let None = vm.result(frames, BUDGET) else { panic!("Result: error") };
}

#[test]
fn tests_exec() {
    let vm = &mut Vm::new(Ieee);
    let frames: Vec<Frame> = vec![
        int_frame(3),
        int_frame(1),
        ADD.into(),
        NEG.into(),
        int_frame(2),
        SUB.into(),
        NEG.into(),
    ];
    match exec(vm, frames) {
        Err(e) => panic!("Error {e:?}"),
        Ok(None) => panic!("Empty stack"),
        Ok(Some(frame)) => assert_eq!(int_frame(6), frame),
    };

    let mut reader = Reader::new();
    match reader.parse(vm, String::from("1 2 add 4 sub")) {
        Err(e) => panic!("Parse error: {e:?}"),
        Ok(frames) => match exec(vm, frames) {
            Err(e) => panic!("Error {e:?}"),
            Ok(None) => panic!("Empty stack"),
            Ok(Some(frame)) => assert_eq!(int_frame(-1), frame),
        },
    };
}

#[test]
fn tests_stacked() {
    let vm = &mut Vm::new(Ieee);
    let frames: Vec<Frame> = vec![
        int_frame(3),
        DUP.into(),
        ADD.into(),
        NEG.into(),
        int_frame(2),
        SUB.into(),
        NEG.into(),
    ];
    match exec(vm, frames) {
        Err(e) => panic!("Error {e:?}"),
        Ok(None) => panic!("Empty stack"),
        Ok(Some(frame)) => assert_eq!(int_frame(8), frame),
    };

    let mut reader = Reader::new();
    match reader.parse(vm, String::from("1 dup add 4 pop dup sub")) {
        Err(e) => panic!("Parse error: {e:?}"),
        Ok(frames) => match exec(vm, frames) {
            Err(e) => panic!("Error {e:?}"),
            Ok(None) => panic!("Empty stack"),
            Ok(Some(frame)) => assert_eq!(int_frame(0), frame),
        },
    };
}

#[test]
fn scenario_add_neg_sub_neg() {
    let mut vm = Vm::new(Ieee);
    assert_eq!(top(&mut vm, "3 1 add neg 2 sub neg"), int_frame(6));
}

#[test]
fn scenario_add_sub() {
    let mut vm = Vm::new(Ieee);
    assert_eq!(top(&mut vm, "1 2 add 4 sub"), int_frame(-1));
}

#[test]
fn scenario_dup_add() {
    let mut vm = Vm::new(Ieee);
    assert_eq!(top(&mut vm, "3 dup add neg 2 sub neg"), int_frame(8));
}

#[test]
fn scenario_pop_dup_sub() {
    let mut vm = Vm::new(Ieee);
    assert_eq!(top(&mut vm, "1 dup add 4 pop dup sub"), int_frame(0));
}

#[test]
fn scenario_list_get_length() {
    let mut vm = Vm::new(Ieee);
    assert_eq!(top(&mut vm, "[ 1 2 3 ] dup 1 get exch length"), usize_frame(3));
    let stack = vm.stack();
    assert_eq!(stack.len(), 2);
    assert_eq!(stack[0], int_frame(2));
    assert_eq!(stack[1], usize_frame(3));
}

#[test]
fn scenario_division_by_zero() {
    let mut vm = Vm::new(Ieee);
    assert_eq!(
        run(&mut vm, "1 0 div"),
        Ok(Some(Frame::Num(Num::Int(Number::Scalar(NumericValue::NaN)))))
    );
}

#[test]
fn scenario_procedure() {
    let mut vm = Vm::new(Ieee);
    assert_eq!(top(&mut vm, "{ 1 2 add } exec 10 mul"), int_frame(30));
    assert_eq!(vm.stack().len(), 1);
}

#[test]
fn procedure_literal_pushes_an_active_list() {
    let mut vm = Vm::new(Ieee);
    let frame = top(&mut vm, "{ 1 2 add }");
    assert!(matches!(frame, Frame::Active(Active::List(_))));
    assert_eq!(vm.stack().len(), 1);
}

#[test]
fn procedure_runs_like_its_frames() {
    let mut direct = Vm::new(Ieee);
    let mut listed = Vm::new(Ieee);
    assert_eq!(run(&mut direct, "7 3 sub dup mul"), Ok(Some(int_frame(16))));
    assert_eq!(run(&mut listed, "{ 7 3 sub dup mul } exec"), Ok(Some(int_frame(16))));
    assert_eq!(direct.stack(), listed.stack());
}

#[test]
fn nested_procedures_close_inside_out() {
    let mut vm = Vm::new(Ieee);
    let frame = top(&mut vm, "{ 1 { 2 } 3 }");
    let Frame::Active(Active::List(_)) = frame else { panic!("No procedure") };
    assert_eq!(vm.stack().len(), 1);
    assert_eq!(top(&mut vm, "mkpass dup length"), usize_frame(3));
    let inner = top(&mut vm, "pop 1 get");
    let Frame::Active(Active::List(_)) = inner else { panic!("No inner procedure") };
    assert_eq!(top(&mut vm, "mkpass length"), usize_frame(1));
}

#[test]
fn a_procedure_in_a_procedure_runs_where_it_stands() {
    let mut vm = Vm::new(Ieee);
    assert_eq!(top(&mut vm, "{ 1 { 2 } add } exec"), int_frame(3));
    assert_eq!(run(&mut vm, "clear { 1 { 2 } exec add } exec"), Err(Error::OpType));
}

#[test]
fn names_are_defined_and_run() {
    let mut vm = Vm::new(Ieee);
    assert_eq!(top(&mut vm, "{ dup mul } /square name 7 square"), int_frame(49));
}

#[test]
fn missing_key_names_the_name() {
    let mut vm = Vm::new(Ieee);
    assert_eq!(run(&mut vm, "1 nothing"), Err(Error::MissingKey(String::from("nothing"))));
    assert_eq!(vm.stack(), &vec![int_frame(1)]);
}

#[test]
fn an_error_leaves_the_operands_and_discards_the_rest() {
    let mut vm = Vm::new(Ieee);
    assert_eq!(run(&mut vm, "1 (a) add 5"), Err(Error::OpType));
    assert_eq!(
        vm.stack(),
        &vec![int_frame(1), Frame::Passive(Passive::String(String::from("a")))]
    );
    assert_eq!(run(&mut vm, ""), Ok(Some(Frame::Passive(Passive::String(String::from("a"))))));
}

#[test]
fn stack_underflow_is_reported_first() {
    let mut vm = Vm::new(Ieee);
    assert_eq!(run(&mut vm, "add"), Err(Error::StackUnderflow));
    assert_eq!(run(&mut vm, "1 add"), Err(Error::StackUnderflow));
    assert_eq!(run(&mut vm, "clear neg"), Err(Error::StackUnderflow));
    assert_eq!(run(&mut vm, "clear ]"), Err(Error::StackUnderflow));
    assert_eq!(run(&mut vm, "clear }"), Err(Error::StackUnderflow));
    assert_eq!(run(&mut vm, "clear 1 get"), Err(Error::StackUnderflow));
}

#[test]
fn quit_is_an_error_of_its_own() {
    let mut vm = Vm::new(Ieee);
    assert_eq!(run(&mut vm, "1 quit 2"), Err(Error::Quit));
    assert_eq!(vm.stack(), &vec![int_frame(1)]);
}

#[test]
fn offsets_are_checked() {
    let mut vm = Vm::new(Ieee);
    assert_eq!(run(&mut vm, "[ 1 2 3 ] -1 get"), Err(Error::IllNeg));
    assert_eq!(run(&mut vm, "clear [ 1 2 3 ] * get"), Err(Error::IllNan));
    assert_eq!(run(&mut vm, "clear [ 1 2 3 ] 3 get"), Err(Error::Range { len: 3, index: 3 }));
    assert_eq!(run(&mut vm, "clear [ 1 2 3 ] 1.5 get"), Err(Error::OpType));
    assert_eq!(
        run(&mut vm, "clear [ 1 2 3 ] 2 2 getinterval"),
        Err(Error::Range { len: 3, index: 4 })
    );
    assert_eq!(run(&mut vm, "clear 0 [ 1 2 3 ] 3u put"), Err(Error::Range { len: 3, index: 3 }));
}

#[test]
fn put_is_seen_through_every_view() {
    let mut vm = Vm::new(Ieee);
    assert_eq!(
        top(&mut vm, "[ 1 2 3 ] dup 1 2 getinterval exch 9 exch 2 put 1 get"),
        int_frame(9)
    );
}

#[test]
fn list_makes_nulls() {
    let mut vm = Vm::new(Ieee);
    assert_eq!(top(&mut vm, "3 list dup length"), usize_frame(3));
    assert_eq!(top(&mut vm, "pop 2 get"), Frame::Null);
}

#[test]
fn modes_flip() {
    let mut vm = Vm::new(Ieee);
    assert_eq!(top(&mut vm, "(1 2 add) mkact exec"), int_frame(3));
    assert_eq!(top(&mut vm, "clear { 1 } mkpass 0 get"), int_frame(1));
    assert_eq!(run(&mut vm, "clear 1 mkact"), Err(Error::OpType));
    assert_eq!(run(&mut vm, "clear { 1 } mkact"), Err(Error::OpType));
    assert_eq!(run(&mut vm, "clear [ 1 ] exec"), Err(Error::OpType));
}

#[test]
fn names_and_strings_convert() {
    let mut vm = Vm::new(Ieee);
    assert_eq!(
        top(&mut vm, "/abc mkstr"),
        Frame::Passive(Passive::String(String::from("abc")))
    );
    let name = vm.intern(String::from("abc"));
    assert_eq!(top(&mut vm, "clear (abc) mkname"), Frame::Passive(Passive::Name(name)));
    assert_eq!(top(&mut vm, "clear 5 (five) mkname name five"), int_frame(5));
}

#[test]
fn aliases_are_bound() {
    let mut vm = Vm::new(Ieee);
    assert_eq!(top(&mut vm, "6 3 +"), int_frame(9));
    assert_eq!(top(&mut vm, "6 3 -"), int_frame(3));
    assert_eq!(top(&mut vm, "6 3 \u{d7}"), int_frame(18));
    assert_eq!(top(&mut vm, "6 3 \u{f7}"), int_frame(2));
    assert_eq!(top(&mut vm, "6 ^"), int_frame(-6));
    assert_eq!(top(&mut vm, "null"), Frame::Null);
    assert_eq!(top(&mut vm, "mark"), Frame::Passive(Passive::Mark));
    assert_eq!(top(&mut vm, "*"), Frame::Num(Num::Int(Number::Scalar(NumericValue::NaN))));
}

#[test]
fn show_and_peek_print() {
    let mut vm = Vm::new(Ieee);
    assert_eq!(top(&mut vm, "= 1 (two) /three [ 4 5u ] { 6 } show peek =="), {
        let stack = vm.stack();
        stack[stack.len() - 1].clone()
    });
    let expected: Vec<String> = [
        "Stack: empty",
        "Stack:",
        "  { 6 }",
        "  [ 4 5 ]",
        "  /(three)",
        "  (two)",
        "  1",
        "-----",
        "Top: { 6 }",
        "Stack:",
        "  { 6 }",
        "  [ 4 5 ]",
        "  /(three)",
        "  (two)",
        "  1",
        "-----",
    ]
    .iter()
    .map(|s| String::from(*s))
    .collect();
    assert_eq!(vm.take_output(), expected);
    assert_eq!(vm.take_output(), Vec::<String>::new());
}

#[test]
fn a_list_in_itself_prints_once() {
    let mut vm = Vm::new(Ieee);
    assert_eq!(run(&mut vm, "[ 1 2 ] dup dup 1 put peek").map(|_| ()), Ok(()));
    assert_eq!(vm.take_output(), vec![String::from("Top: [ 1 [ ... ] ]")]);
}

#[test]
fn restore_drops_what_was_saved() {
    let mut vm = Vm::new(Ieee);
    assert_eq!(run(&mut vm, "[ 1 2 ]").map(|_| ()), Ok(()));
    assert_eq!(vm.save(), None);
    assert_eq!(run(&mut vm, "[ 3 4 ]").map(|_| ()), Ok(()));
    assert!(vm.restore());
    assert_eq!(run(&mut vm, "dup length"), Err(Error::Dropped));
    assert_eq!(run(&mut vm, "0 get"), Err(Error::Dropped));
    assert_eq!(run(&mut vm, "pop 7 exch 0 put"), Err(Error::Dropped));
    assert_eq!(run(&mut vm, "clear peek").map(|_| ()), Ok(()));
    assert_eq!(run(&mut vm, "7 exch 0 0 getinterval"), Err(Error::StackUnderflow));
    assert!(!vm.restore());
    let mut other = Vm::new(Ieee);
    assert_eq!(run(&mut other, "[ 1 2 ] dup length"), Ok(Some(usize_frame(2))));
}

#[test]
fn a_dropped_list_prints_as_dropped() {
    let mut vm = Vm::new(Ieee);
    assert_eq!(vm.save(), None);
    assert_eq!(run(&mut vm, "[ 3 4 ]").map(|_| ()), Ok(()));
    assert!(vm.restore());
    assert_eq!(run(&mut vm, "peek").map(|_| ()), Ok(()));
    assert_eq!(vm.take_output(), vec![String::from("Top: [ -- Dropped -- ]")]);
    assert_eq!(run(&mut vm, "[ 5 ] 0 get"), Ok(Some(int_frame(5))));
}

#[test]
fn a_budget_pauses_a_program_that_does_not_halt() {
    let mut vm = Vm::new(Ieee);
    let mut reader = Reader::new();
    let frames = reader.parse(&mut vm, String::from("{ forever } /forever name forever")).unwrap();
    assert_eq!(vm.exec(frames, 1000), Ok(Run::Paused));
    assert_eq!(vm.run(1000), Ok(Run::Paused));
    assert_eq!(vm.stack().len(), 0);
}

#[test]
fn steps_are_counted_one_frame_each() {
    let mut vm = Vm::new(Ieee);
    vm.load(vec![int_frame(1), int_frame(2), Frame::BinaryOp(ADD)]);
    assert_eq!(vm.run(2), Ok(Run::Paused));
    assert_eq!(vm.stack(), &vec![int_frame(1), int_frame(2)]);
    assert_eq!(vm.step(), Ok(true));
    assert_eq!(vm.stack(), &vec![int_frame(3)]);
    assert_eq!(vm.step(), Ok(false));
    assert_eq!(vm.run(0), Ok(Run::Done(Some(int_frame(3)))));
}

#[test]
fn vmstats_reports_what_the_host_measured() {
    let mut vm = Vm::new(Ieee);
    assert_eq!(top(&mut vm, "vmstats"), int_frame(-1));
    vm.report_memory(4096, 1024);
    assert_eq!(top(&mut vm, "clear vmstats"), int_frame(1024));
    assert_eq!(vm.stack()[0], int_frame(4096));
}

#[test]
fn collection_takes_operators_as_data() {
    let mut vm = Vm::new(Ieee);
    let frame = top(&mut vm, "{ add ] quit }");
    let Frame::Active(Active::List(_)) = frame else { panic!("No procedure") };
    assert_eq!(top(&mut vm, "mkpass 1 get"), Frame::VmOp(VmOp::MkList));
}

#[test]
fn find_looks_names_up() {
    let mut vm = Vm::new(Ieee);
    let add = vm.intern(String::from("add"));
    assert_eq!(vm.find(add), Ok(Frame::BinaryOp(ADD)));
    let nothing = vm.intern(String::from("nothing"));
    assert_eq!(vm.find(nothing), Err(Error::MissingKey(String::from("nothing"))));
    assert_eq!(vm.peek(), None);
}

#[test]
fn the_engine_evicts_the_names_that_nothing_holds() {
    let mut vm = Vm::new(Ieee);
    assert_eq!(run(&mut vm, "/transient pop /lasting").map(|_| ()), Ok(()));
    assert!(vm.interned(&String::from("transient")));
    vm.evict_names();
    assert!(!vm.interned(&String::from("transient")));
    assert!(vm.interned(&String::from("lasting")));
    assert!(vm.interned(&String::from("add")));
    assert_eq!(run(&mut vm, "pop").map(|_| ()), Ok(()));
    vm.evict_names();
    assert!(!vm.interned(&String::from("lasting")));
    assert_eq!(top(&mut vm, "1 2 add"), int_frame(3));
}

#[test]
fn data_leaves_itself_and_nothing_else() {
    let mut vm = Vm::new(Ieee);
    let name = vm.intern(String::from("n"));
    let frames: Vec<Frame> = vec![
        int_frame(1),
        Frame::Null,
        Passive::String(String::from("s")).into(),
        Passive::Name(name).into(),
        Passive::Mark.into(),
        usize_frame(2),
    ];
    assert_eq!(exec(&mut vm, frames.clone()), Ok(Some(usize_frame(2))));
    assert_eq!(vm.stack(), &frames);
    assert_eq!(run(&mut vm, "]"), {
        let stack = vm.stack();
        Ok(Some(stack[stack.len() - 1].clone()))
    });
    assert_eq!(vm.stack().len(), 5);
    assert_eq!(vm.stack()[..4], frames[..4]);
}

#[test]
fn conversions_wrap_their_operand() {
    let number: Number<i64> = NumericValue::Value(5).into();
    assert_eq!(number, Number::Scalar(NumericValue::Value(5)));
    let array: Number<i64> = vec![NumericValue::NaN].into();
    assert_eq!(array, Number::Array(vec![NumericValue::NaN]));
    let num: Num = number.into();
    assert_eq!(Frame::from(num), int_frame(5));
    assert_eq!(Frame::from(VmOp::MkProc), Frame::VmOp(VmOp::MkProc));
    assert_eq!(Frame::from(Active::Mark), Frame::Active(Active::Mark));
    assert_eq!(Active::from(String::from("s")), Active::String(String::from("s")));
}

#[test]
fn a_dropped_list_answers_dropped_to_any_offset() {
    let mut vm = Vm::new(Ieee);
    assert_eq!(vm.save(), None);
    assert_eq!(run(&mut vm, "[ 1 2 ]").map(|_| ()), Ok(()));
    assert!(vm.restore());
    assert_eq!(run(&mut vm, "dup 5 get"), Err(Error::Dropped));
    assert_eq!(run(&mut vm, "pop 7 exch 9 put"), Err(Error::Dropped));
    assert_eq!(run(&mut vm, "pop pop pop 1 5 getinterval"), Err(Error::Dropped));
}

#[test]
fn a_balanced_text_leaves_no_mark() {
    let mut vm = Vm::new(Ieee);
    let frames: Vec<Frame> = vec![
        Passive::Mark.into(),
        int_frame(1),
        Active::Mark.into(),
        Passive::Mark.into(),
        VmOp::MkList.into(),
        VmOp::MkProc.into(),
        int_frame(3),
        Passive::Mark.into(),
        VmOp::MkList.into(),
        VmOp::MkList.into(),
        int_frame(4),
        NEG.into(),
    ];
    assert_eq!(exec(&mut vm, frames), Ok(Some(int_frame(-4))));
    let stack = vm.stack();
    assert_eq!(stack.len(), 2);
    assert!(stack
        .iter()
        .all(|frame| *frame != Frame::from(Passive::Mark) && *frame != Frame::from(Active::Mark)));
    assert!(matches!(stack[0], Frame::Passive(Passive::List(_))));
    assert_eq!(top(&mut vm, "pop dup length"), usize_frame(4));
    assert_eq!(top(&mut vm, "pop 1 get mkpass length"), usize_frame(2));
}

#[test]
fn a_text_that_copies_a_mark_may_leave_one() {
    let mut vm = Vm::new(Ieee);
    assert_eq!(run(&mut vm, "[ dup ]").map(|_| ()), Ok(()));
    assert_eq!(vm.stack()[0], Frame::from(Passive::Mark));
}
