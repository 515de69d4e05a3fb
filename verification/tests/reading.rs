use deuterostome::error::Error;
use deuterostome::numeric::float::{Float, FloatUnit};
use deuterostome::numeric::{Number, NumericValue};
use deuterostome::reader::lex::{next_word, read_elements, read_literal, skip_gap, Element, Kind, Word};
use deuterostome::reader::scan::{read_number, scan, Class};
use deuterostome::reader::{convert, parse};
use deuterostome::term::exec_string;
use deuterostome::text::{chars_of, string_of};
use deuterostome::types::name::InternTable;
use deuterostome::types::num::Num;
use deuterostome::vm::frame::{Active, Frame, Passive};
use deuterostome::vm::optypes::VmOp;
use deuterostome::vm::{Run, Vm};

struct Ieee;

fn checked(value: f64) -> Option<Float> {
    if value.is_finite() {
        Some(Float { bits: value.to_bits() })
    } else {
        None
    }
}

impl FloatUnit for Ieee {
    fn add(&self, lhs: Float, rhs: Float) -> Option<Float> {
        checked(f64::from_bits(lhs.bits) + f64::from_bits(rhs.bits))
    }

    fn sub(&self, lhs: Float, rhs: Float) -> Option<Float> {
        checked(f64::from_bits(lhs.bits) - f64::from_bits(rhs.bits))
    }

    fn mul(&self, lhs: Float, rhs: Float) -> Option<Float> {
        checked(f64::from_bits(lhs.bits) * f64::from_bits(rhs.bits))
    }

    fn div(&self, lhs: Float, rhs: Float) -> Option<Float> {
        checked(f64::from_bits(lhs.bits) / f64::from_bits(rhs.bits))
    }

    fn neg(&self, value: Float) -> Option<Float> {
        Some(Float { bits: (-f64::from_bits(value.bits)).to_bits() })
    }

    fn cos(&self, value: Float) -> Option<Float> {
        Some(Float { bits: f64::from_bits(value.bits).cos().to_bits() })
    }

    fn from_int(&self, value: i64) -> Float {
        Float { bits: (value as f64).to_bits() }
    }

    fn from_usize(&self, value: usize) -> Float {
        Float { bits: (value as f64).to_bits() }
    }

    fn to_int(&self, value: Float) -> Option<i64> {
        let f = f64::from_bits(value.bits);
        if !f.is_finite() || f > i64::MAX as f64 || f < i64::MIN as f64 {
            None
        } else {
            Some(f.round() as i64)
        }
    }

    fn to_usize(&self, value: Float) -> Option<usize> {
        let f = f64::from_bits(value.bits);
        if !f.is_finite() || f > usize::MAX as f64 || f < usize::MIN as f64 {
            None
        } else {
            Some(f.round() as usize)
        }
    }

    fn parse(&self, text: &str) -> Option<Float> {
        match text.parse::<f64>() {
            Ok(value) => Some(Float { bits: value.to_bits() }),
            Err(_) => None,
        }
    }

    fn show(&self, value: Float) -> String {
        format!("{}", f64::from_bits(value.bits))
    }
}

fn read(text: &str) -> Result<Vec<Frame>, Error> {
    let mut names = InternTable::new();
    parse(text, &mut names, &Ieee)
}

fn words(text: &str) -> Vec<Result<Word, Error>> {
    let chars: Vec<char> = text.chars().collect();
    let mut out = Vec::new();
    let mut i = skip_gap(&chars, 0);
    while i < chars.len() {
        let (word, end) = next_word(&chars, i);
        let failed = word.is_err();
        out.push(word);
        if failed {
            break;
        }
        i = skip_gap(&chars, end);
    }
    out
}

fn int_frame(i: i64) -> Frame {
    Frame::Num(Num::Int(Number::Scalar(NumericValue::Value(i))))
}

fn usize_frame(i: usize) -> Frame {
    Frame::Num(Num::USize(Number::Scalar(NumericValue::Value(i))))
}

fn float_frame(f: f64) -> Frame {
    Frame::Num(Num::Float(Number::Scalar(NumericValue::Value(Float { bits: f.to_bits() }))))
}

fn active_name(vm: &mut Vm<Ieee>, name: &str) -> Frame {
    Frame::Active(Active::Name(vm.intern(String::from(name))))
}

#[test]
fn strings_go_to_characters_and_back() {
    assert_eq!(chars_of("a\u{d7}b"), vec!['a', '\u{d7}', 'b']);
    assert_eq!(chars_of(""), Vec::<char>::new());
    assert_eq!(string_of(&vec!['x', '\u{f7}', 'y']), String::from("x\u{f7}y"));
    assert_eq!(string_of(&vec![]), String::new());
}

#[test]
fn runs_end_where_the_class_ends() {
    let text: Vec<char> = "  12ab)".chars().collect();
    assert_eq!(scan(&text, 0, Class::Space), 2);
    assert_eq!(scan(&text, 2, Class::Space), 2);
    assert_eq!(scan(&text, 2, Class::Digit), 4);
    assert_eq!(scan(&text, 2, Class::Name), 6);
    assert_eq!(scan(&text, 0, Class::Text), 6);
    assert_eq!(scan(&text, 0, Class::Line), 7);
    assert_eq!(scan(&text, 0, Class::Inner), 7);
    assert_eq!(scan(&text, 2, Class::Solid), 7);
    assert_eq!(scan(&text, 7, Class::Solid), 7);
}

#[test]
fn digits_are_read_up_to_a_limit() {
    let text: Vec<char> = "x0255y".chars().collect();
    assert_eq!(read_number(&text, 1, 5, 255), Some(255));
    assert_eq!(read_number(&text, 1, 5, 254), None);
    assert_eq!(read_number(&text, 1, 1, 0), Some(0));
    assert_eq!(read_number(&text, 2, 5, 3), None);
    let big: Vec<char> = "18446744073709551615".chars().collect();
    assert_eq!(read_number(&big, 0, 20, u64::MAX), Some(u64::MAX));
    let bigger: Vec<char> = "18446744073709551616".chars().collect();
    assert_eq!(read_number(&bigger, 0, 20, u64::MAX), None);
}

#[test]
fn integers_are_signed_and_may_end_in_l() {
    assert_eq!(read("12 -7 +3 5l -0"), Ok(vec![
        int_frame(12),
        int_frame(-7),
        int_frame(3),
        int_frame(5),
        int_frame(0),
    ]));
    assert_eq!(read("9223372036854775807"), Ok(vec![int_frame(i64::MAX)]));
    assert_eq!(read("-9223372036854775808"), Ok(vec![int_frame(i64::MIN)]));
}

#[test]
fn integers_out_of_range_do_not_parse() {
    assert_eq!(
        read("1 9223372036854775808 2"),
        Err(Error::IntParse(String::from("9223372036854775808")))
    );
    assert_eq!(
        read("-9223372036854775809"),
        Err(Error::IntParse(String::from("-9223372036854775809")))
    );
}

#[test]
fn unsigned_literals_end_in_u() {
    assert_eq!(read("12u 0u"), Ok(vec![usize_frame(12), usize_frame(0)]));
    assert_eq!(
        read("99999999999999999999999u"),
        Err(Error::USizeParse(String::from("99999999999999999999999")))
    );
}

#[test]
fn float_literals_have_a_point_or_an_exponent() {
    assert_eq!(read("1.5 -2.25d .5 1. 1e3 -1.5E-2 +.5e+1"), Ok(vec![
        float_frame(1.5),
        float_frame(-2.25),
        float_frame(0.5),
        float_frame(1.0),
        float_frame(1000.0),
        float_frame(-0.015),
        float_frame(5.0),
    ]));
}

#[test]
fn the_float_unit_judges_float_literals() {
    struct Strict;
    impl FloatUnit for Strict {
        fn add(&self, _: Float, _: Float) -> Option<Float> {
            None
        }
        fn sub(&self, _: Float, _: Float) -> Option<Float> {
            None
        }
        fn mul(&self, _: Float, _: Float) -> Option<Float> {
            None
        }
        fn div(&self, _: Float, _: Float) -> Option<Float> {
            None
        }
        fn neg(&self, _: Float) -> Option<Float> {
            None
        }
        fn cos(&self, _: Float) -> Option<Float> {
            None
        }
        fn from_int(&self, _: i64) -> Float {
            Float { bits: 0 }
        }
        fn from_usize(&self, _: usize) -> Float {
            Float { bits: 0 }
        }
        fn to_int(&self, _: Float) -> Option<i64> {
            None
        }
        fn to_usize(&self, _: Float) -> Option<usize> {
            None
        }
        fn parse(&self, _: &str) -> Option<Float> {
            None
        }
        fn show(&self, _: Float) -> String {
            String::new()
        }
    }
    let mut names = InternTable::new();
    assert_eq!(parse("1 2.5d )", &mut names, &Strict), Err(Error::FloatParse(String::from("2.5"))));
    assert_eq!(
        parse("<d 1.5 2.5>", &mut names, &Strict),
        Err(Error::FloatParse(String::from("1.5")))
    );
    assert_eq!(parse("1 )", &mut names, &Strict), Err(Error::IllegalSym(String::from(")"))));
}

#[test]
fn numbers_need_no_space_after_them() {
    let mut vm = Vm::new(Ieee);
    let dup = active_name(&mut vm, "dup");
    let e = active_name(&mut vm, "e");
    let u = active_name(&mut vm, "u");
    let d = active_name(&mut vm, "d");
    assert_eq!(vm.parse("3dup"), Ok(vec![int_frame(3), dup]));
    assert_eq!(vm.parse("1e"), Ok(vec![int_frame(1), e]));
    assert_eq!(vm.parse("-5u"), Ok(vec![int_frame(-5), u.clone()]));
    assert_eq!(vm.parse("5d"), Ok(vec![int_frame(5), d]));
    assert_eq!(vm.parse("1.5u"), Ok(vec![float_frame(1.5), u]));
    assert_eq!(vm.parse("12u3"), Ok(vec![usize_frame(12), int_frame(3)]));
}

#[test]
fn signs_alone_are_names() {
    let mut vm = Vm::new(Ieee);
    let plus = active_name(&mut vm, "+");
    let minus = active_name(&mut vm, "-");
    let point = active_name(&mut vm, ".");
    let minus_x = active_name(&mut vm, "-x");
    assert_eq!(vm.parse("+ - . -x"), Ok(vec![plus, minus, point, minus_x]));
}

#[test]
fn names_are_passive_after_a_slash() {
    let mut vm = Vm::new(Ieee);
    let abc = vm.intern(String::from("abc"));
    let times = vm.intern(String::from("a|b\u{d7}"));
    assert_eq!(
        vm.parse("/abc abc a|b\u{d7}/abc"),
        Ok(vec![
            Frame::Passive(Passive::Name(abc.clone())),
            Frame::Active(Active::Name(abc.clone())),
            Frame::Active(Active::Name(times)),
            Frame::Passive(Passive::Name(abc)),
        ])
    );
}

#[test]
fn strings_run_to_the_next_closing_bracket() {
    assert_eq!(
        read("(a b \\( c)(/x[) ()"),
        Ok(vec![
            Frame::Passive(Passive::String(String::from("a b \\( c"))),
            Frame::Passive(Passive::String(String::from("/x["))),
            Frame::Passive(Passive::String(String::new())),
        ])
    );
}

#[test]
fn brackets_are_marks_and_operators() {
    assert_eq!(
        read("[]{}"),
        Ok(vec![
            Frame::Passive(Passive::Mark),
            Frame::VmOp(VmOp::MkList),
            Frame::Active(Active::Mark),
            Frame::VmOp(VmOp::MkProc),
        ])
    );
}

#[test]
fn array_literals_hold_values_and_stars() {
    assert_eq!(
        read("<l 1 -2 * 3l > <u 1 2u *> <d 1.5 * -2e1d> <l>"),
        Ok(vec![
            Frame::Num(Num::Int(Number::Array(vec![
                NumericValue::Value(1),
                NumericValue::Value(-2),
                NumericValue::NaN,
                NumericValue::Value(3),
            ]))),
            Frame::Num(Num::USize(Number::Array(vec![
                NumericValue::Value(1),
                NumericValue::Value(2),
                NumericValue::NaN,
            ]))),
            Frame::Num(Num::Float(Number::Array(vec![
                NumericValue::Value(Float { bits: 1.5f64.to_bits() }),
                NumericValue::NaN,
                NumericValue::Value(Float { bits: (-20.0f64).to_bits() }),
            ]))),
            Frame::Num(Num::Int(Number::Array(vec![]))),
        ])
    );
}

#[test]
fn ill_formed_arrays_carry_what_is_left() {
    assert_eq!(read("<l 1 x 2>"), Err(Error::Illformed(String::from("x 2"))));
    assert_eq!(read("<d 1 2>"), Err(Error::Illformed(String::from("1 2"))));
    assert_eq!(read("<u -1>"), Err(Error::Illformed(String::from("-1"))));
    assert_eq!(
        read("<l 99999999999999999999>"),
        Err(Error::IntParse(String::from("99999999999999999999")))
    );
    assert_eq!(
        read("<u 99999999999999999999>"),
        Err(Error::USizeParse(String::from("99999999999999999999")))
    );
}

#[test]
fn an_array_without_its_end_is_a_name() {
    let mut vm = Vm::new(Ieee);
    let open = active_name(&mut vm, "<l");
    let less = active_name(&mut vm, "<");
    assert_eq!(vm.parse("<l 1 2"), Ok(vec![open, int_frame(1), int_frame(2)]));
    assert_eq!(vm.parse("<"), Ok(vec![less]));
}

#[test]
fn illegal_symbols_are_reported() {
    assert_eq!(read("1 )x y"), Err(Error::IllegalSym(String::from(")x"))));
    assert_eq!(read("(abc"), Err(Error::IllegalSym(String::from("(abc"))));
    assert_eq!(read("/ x"), Err(Error::IllegalSym(String::from("/"))));
    assert_eq!(read("//"), Err(Error::IllegalSym(String::from("//"))));
}

#[test]
fn comments_run_to_the_end_of_the_line() {
    assert_eq!(read("1 | one ) ( \n 2 |two"), Ok(vec![int_frame(1), int_frame(2)]));
    assert_eq!(read("| only a comment"), Ok(vec![]));
    assert_eq!(read("|\n|\n3"), Ok(vec![int_frame(3)]));
    assert_eq!(read(""), Ok(vec![]));
    assert_eq!(read(" \t\r\n "), Ok(vec![]));
}

#[test]
fn words_are_read_one_at_a_time() {
    assert_eq!(
        words(" 1.5d 2u -3l <u 1 *> /a b (c) [ ] { } "),
        vec![
            Ok(Word::Float(String::from("1.5"))),
            Ok(Word::USize(2)),
            Ok(Word::Int(-3)),
            Ok(Word::Array(Kind::USize, vec![Element::USize(1), Element::NaN])),
            Ok(Word::PName(String::from("a"))),
            Ok(Word::AName(String::from("b"))),
            Ok(Word::String(String::from("c"))),
            Ok(Word::PMark),
            Ok(Word::MkList),
            Ok(Word::AMark),
            Ok(Word::MkProc),
        ]
    );
    assert_eq!(words("1 ) 2"), vec![Ok(Word::Int(1)), Err(Error::IllegalSym(String::from(")")))]);
}

#[test]
fn literals_and_elements_are_read_by_kind() {
    let text: Vec<char> = "12u 1.5d x".chars().collect();
    assert_eq!(read_literal(&text, 0, Kind::USize), Some((Ok(Element::USize(12)), 3)));
    assert_eq!(read_literal(&text, 0, Kind::Int), Some((Ok(Element::Int(12)), 2)));
    assert_eq!(read_literal(&text, 0, Kind::Float), None);
    assert_eq!(
        read_literal(&text, 4, Kind::Float),
        Some((Ok(Element::Float(String::from("1.5"))), 8))
    );
    assert_eq!(read_literal(&text, 9, Kind::Int), None);
    assert_eq!(
        read_elements(&text, 0, 3, Kind::USize),
        Ok(vec![Element::USize(12)])
    );
    assert_eq!(read_elements(&text, 3, 3, Kind::USize), Ok(vec![]));
    assert_eq!(read_elements(&text, 8, 10, Kind::Int), Err(Error::Illformed(String::from("x"))));
}

#[test]
fn words_become_frames() {
    let mut names = InternTable::new();
    assert_eq!(convert(Word::Int(5), &mut names, &Ieee), Ok(int_frame(5)));
    assert_eq!(convert(Word::USize(5), &mut names, &Ieee), Ok(usize_frame(5)));
    assert_eq!(convert(Word::Float(String::from("2.5")), &mut names, &Ieee), Ok(float_frame(2.5)));
    assert!(!names.holds(&String::from("x")));
    let frame = convert(Word::AName(String::from("x")), &mut names, &Ieee);
    assert!(matches!(frame, Ok(Frame::Active(Active::Name(_)))));
    assert!(names.holds(&String::from("x")));
    assert_eq!(
        convert(Word::Float(String::from("abc")), &mut names, &Ieee),
        Err(Error::FloatParse(String::from("abc")))
    );
}

#[test]
fn parsing_interns_the_names_of_the_text() {
    let mut names = InternTable::new();
    assert!(parse("/a b 3 (c)", &mut names, &Ieee).is_ok());
    assert!(names.holds(&String::from("a")));
    assert!(names.holds(&String::from("b")));
    assert!(!names.holds(&String::from("c")));
    assert!(!names.holds(&String::from("3")));
}

#[test]
fn text_is_read_and_executed() {
    let mut vm = Vm::new(Ieee);
    assert_eq!(
        exec_string(&mut vm, String::from("1 2 add"), 100),
        Some(Ok(Run::Done(Some(int_frame(3)))))
    );
    assert_eq!(exec_string(&mut vm, String::from("clear"), 100), Some(Ok(Run::Done(None))));
    assert_eq!(exec_string(&mut vm, String::from("1 quit 2"), 100), None);
    assert_eq!(exec_string(&mut vm, String::from("1 )"), 100), Some(Err(Error::IllegalSym(String::from(")")))));
    assert_eq!(vm.stack(), &vec![int_frame(1)]);
    assert_eq!(exec_string(&mut vm, String::from("add"), 100), Some(Err(Error::StackUnderflow)));
    assert_eq!(exec_string(&mut vm, String::from("1 2 3"), 2), Some(Ok(Run::Paused)));
}

#[test]
fn active_strings_are_read_when_they_run() {
    let mut vm = Vm::new(Ieee);
    assert_eq!(
        exec_string(&mut vm, String::from("(1 2 add 3 mul) mkact exec 1 add"), 100),
        Some(Ok(Run::Done(Some(int_frame(10)))))
    );
    assert_eq!(
        exec_string(&mut vm, String::from("(1 ] 2) mkact exec 5"), 100),
        Some(Err(Error::StackUnderflow))
    );
    assert_eq!(
        exec_string(&mut vm, String::from("clear (1 nothing 2) mkact exec 5"), 100),
        Some(Err(Error::MissingKey(String::from("nothing"))))
    );
    assert_eq!(
        exec_string(&mut vm, String::from("clear (1 9999999999999999999) mkact exec 5"), 100),
        Some(Err(Error::IntParse(String::from("9999999999999999999"))))
    );
    assert_eq!(vm.stack().len(), 0);
}
