//! The reader: from source text to frames.
//!
//! Text is a sequence of tokens. Between tokens stand white space and
//! comments; a comment runs from a `|` that starts where a token could to the
//! end of its line.
//!
//! | token | frame |
//! |---|---|
//! | float literal, optionally followed by `d` | float scalar |
//! | digits followed by `u` | unsigned scalar |
//! | integer literal, optionally followed by `l` | signed scalar |
//! | `<d … >`, `<l … >`, `<u … >` | float, signed, unsigned array; `*` is `NaN` |
//! | `/name` | passive name |
//! | `name` | active name |
//! | `(string)` | passive string |
//! | `[`, `]` | passive mark, `mklist` |
//! | `{`, `}` | active mark, `mkproc` |
//!
//! The alternatives are tried in this order, and the first that matches
//! decides. Numbers need no white space after them: `3dup` is `3`, `dup`.

pub mod lex;
pub mod scan;

use vstd::prelude::*;

use crate::error::{Error, ErrorView};
use crate::numeric::float::{Float, FloatUnit};
use crate::numeric::{Number, NumberView, NumericValue};
use crate::reader::lex::{items, lex, next_word, skip_gap, Element, Item, Kind, Token, Word};
use crate::text::{chars_of, push_str, string_of};
use crate::types::name::InternTable;
use crate::types::num::{Num, NumView};
use crate::vm::frame::{views, Active, Datum, Frame, FrameView, Passive};
use crate::vm::optypes::VmOp;
use crate::vm::state::VmView;
use crate::vm::{ran, Run, Vm};

verus! {

/// Whether `value` is what the element `item` of an array denotes: `NaN` for
/// `*`, the value of an integer literal, and some value for a float literal.
pub open spec fn int_of(item: Item, value: NumericValue<i64>) -> bool {
    match item {
        Item::Int(v) => value == NumericValue::Value(v),
        _ => value is NaN,
    }
}

/// See [`int_of`].
pub open spec fn usize_of(item: Item, value: NumericValue<usize>) -> bool {
    match item {
        Item::USize(v) => value == NumericValue::Value(v),
        _ => value is NaN,
    }
}

/// See [`int_of`].
pub open spec fn float_of(item: Item, value: NumericValue<Float>) -> bool {
    match item {
        Item::Float(_) => value is Value,
        _ => value is NaN,
    }
}

/// Whether `frame` is what the token denotes. The frame of a float literal
/// is a float scalar whose value the host's float unit decides; the frame of
/// every other token is determined.
pub open spec fn frame_of(token: Token, frame: FrameView) -> bool {
    match token {
        Token::Float(_) => frame matches FrameView::Num(NumView::Float(NumberView::Scalar(v)))
            && v is Value,
        Token::USize(v) => frame == FrameView::Num(
            NumView::USize(NumberView::Scalar(NumericValue::Value(v))),
        ),
        Token::Int(v) => frame == FrameView::Num(
            NumView::Int(NumberView::Scalar(NumericValue::Value(v))),
        ),
        Token::Array(Kind::Int, items) => frame matches FrameView::Num(
            NumView::Int(NumberView::Array(a)),
        ) && a.len() == items.len() && forall|i: int|
            0 <= i < a.len() ==> int_of(items[i], #[trigger] a[i]),
        Token::Array(Kind::USize, items) => frame matches FrameView::Num(
            NumView::USize(NumberView::Array(a)),
        ) && a.len() == items.len() && forall|i: int|
            0 <= i < a.len() ==> usize_of(items[i], #[trigger] a[i]),
        Token::Array(Kind::Float, items) => frame matches FrameView::Num(
            NumView::Float(NumberView::Array(a)),
        ) && a.len() == items.len() && forall|i: int|
            0 <= i < a.len() ==> float_of(items[i], #[trigger] a[i]),
        Token::PName(name) => frame == FrameView::Passive(Datum::Name(name)),
        Token::AName(name) => frame == FrameView::Active(Datum::Name(name)),
        Token::String(text) => frame == FrameView::Passive(Datum::String(text)),
        Token::PMark => frame == FrameView::Passive(Datum::Mark),
        Token::MkList => frame == FrameView::VmOp(VmOp::MkList),
        Token::AMark => frame == FrameView::Active(Datum::Mark),
        Token::MkProc => frame == FrameView::VmOp(VmOp::MkProc),
    }
}

/// The float literals in a token, which the host's float unit may reject.
pub open spec fn float_texts(token: Token) -> Set<Seq<char>> {
    match token {
        Token::Float(text) => set![text],
        Token::Array(_, items) => Set::new(
            |text: Seq<char>| exists|i: int| 0 <= i < items.len() && items[i] == Item::Float(text),
        ),
        _ => Set::empty(),
    }
}

/// The names in a token.
pub open spec fn names_in(token: Token) -> Set<Seq<char>> {
    match token {
        Token::PName(name) => set![name],
        Token::AName(name) => set![name],
        _ => Set::empty(),
    }
}

/// The names in the first `n` of some tokens.
pub open spec fn names_among(tokens: Seq<Token>, n: int) -> Set<Seq<char>>
    decreases n,
{
    if n <= 0 {
        Set::empty()
    } else {
        names_among(tokens, n - 1).union(names_in(tokens[n - 1]))
    }
}

/// The frame that a word denotes. Names are interned; float literals go to
/// the float unit, and one that it rejects is a `FloatParse` with the
/// literal. Nothing else fails.
pub fn convert<F: FloatUnit>(word: Word, names: &mut InternTable, unit: &F) -> (out: Result<
    Frame,
    Error,
>)
    requires
        old(names).wf(),
    ensures
        final(names).wf(),
        match out {
            Ok(frame) => frame_of(word@, frame@) && final(names)@ == old(names)@.union(
                names_in(word@),
            ),
            Err(error) => error@ matches ErrorView::FloatParse(text) && float_texts(
                word@,
            ).contains(text) && final(names)@ == old(names)@,
        },
{
    match word {
        Word::Float(text) => {
            assert(names@.union(Set::<Seq<char>>::empty()) =~= names@);
            match unit.parse(text.as_str()) {
                Some(value) => Ok(
                    Frame::Num(Num::Float(Number::Scalar(NumericValue::Value(value)))),
                ),
                None => Err(Error::FloatParse(text)),
            }
        },
        Word::USize(v) => {
            assert(names@.union(Set::<Seq<char>>::empty()) =~= names@);
            Ok(Frame::Num(Num::USize(Number::Scalar(NumericValue::Value(v)))))
        },
        Word::Int(v) => {
            assert(names@.union(Set::<Seq<char>>::empty()) =~= names@);
            Ok(Frame::Num(Num::Int(Number::Scalar(NumericValue::Value(v)))))
        },
        Word::Array(kind, elements) => {
            assert(names@.union(Set::<Seq<char>>::empty()) =~= names@);
            match mkarray(kind, elements, unit) {
                Ok(num) => Ok(Frame::Num(num)),
                Err(error) => Err(error),
            }
        },
        Word::PName(name) => {
            assert(names@.union(set![name@]) =~= names@.insert(name@));
            Ok(Frame::Passive(Passive::Name(names.intern(name))))
        },
        Word::AName(name) => {
            assert(names@.union(set![name@]) =~= names@.insert(name@));
            Ok(Frame::Active(Active::Name(names.intern(name))))
        },
        Word::String(text) => {
            assert(names@.union(Set::<Seq<char>>::empty()) =~= names@);
            Ok(Frame::Passive(Passive::String(text)))
        },
        Word::PMark => {
            assert(names@.union(Set::<Seq<char>>::empty()) =~= names@);
            Ok(Frame::Passive(Passive::Mark))
        },
        Word::MkList => {
            assert(names@.union(Set::<Seq<char>>::empty()) =~= names@);
            Ok(Frame::VmOp(VmOp::MkList))
        },
        Word::AMark => {
            assert(names@.union(Set::<Seq<char>>::empty()) =~= names@);
            Ok(Frame::Active(Active::Mark))
        },
        Word::MkProc => {
            assert(names@.union(Set::<Seq<char>>::empty()) =~= names@);
            Ok(Frame::VmOp(VmOp::MkProc))
        },
    }
}

/// The array that the elements of an array literal denote.
pub fn mkarray<F: FloatUnit>(kind: Kind, elements: Vec<Element>, unit: &F) -> (out: Result<
    Num,
    Error,
>)
    ensures
        match out {
            Ok(num) => frame_of(Token::Array(kind, items(elements@)), FrameView::Num(num@)),
            Err(error) => error@ matches ErrorView::FloatParse(text) && float_texts(
                Token::Array(kind, items(elements@)),
            ).contains(text),
        },
{
    match kind {
        Kind::Int => {
            let mut r: Vec<NumericValue<i64>> = Vec::new();
            let mut i: usize = 0;
            while i < elements.len()
                invariant
                    i <= elements.len(),
                    r.len() == i,
                    forall|j: int| 0 <= j < i ==> int_of(elements[j]@, #[trigger] r[j]),
                decreases elements.len() - i,
            {
                let value = match &elements[i] {
                    Element::Int(v) => NumericValue::Value(*v),
                    _ => NumericValue::NaN,
                };
                r.push(value);
                i += 1;
            }
            Ok(Num::Int(Number::Array(r)))
        },
        Kind::USize => {
            let mut r: Vec<NumericValue<usize>> = Vec::new();
            let mut i: usize = 0;
            while i < elements.len()
                invariant
                    i <= elements.len(),
                    r.len() == i,
                    forall|j: int| 0 <= j < i ==> usize_of(elements[j]@, #[trigger] r[j]),
                decreases elements.len() - i,
            {
                let value = match &elements[i] {
                    Element::USize(v) => NumericValue::Value(*v),
                    _ => NumericValue::NaN,
                };
                r.push(value);
                i += 1;
            }
            Ok(Num::USize(Number::Array(r)))
        },
        Kind::Float => {
            let mut r: Vec<NumericValue<Float>> = Vec::new();
            let mut i: usize = 0;
            while i < elements.len()
                invariant
                    i <= elements.len(),
                    r.len() == i,
                    forall|j: int| 0 <= j < i ==> float_of(elements[j]@, #[trigger] r[j]),
                decreases elements.len() - i,
            {
                let value = match &elements[i] {
                    Element::Float(text) => match unit.parse(text.as_str()) {
                        Some(value) => NumericValue::Value(value),
                        None => {
                            assert(items(elements@)[i as int] == Item::Float(text@));
                            return Err(Error::FloatParse(text.clone()));
                        },
                    },
                    _ => NumericValue::NaN,
                };
                r.push(value);
                i += 1;
            }
            Ok(Num::Float(Number::Array(r)))
        },
    }
}

/// Whether `frames` are what the tokens denote, one for one.
pub open spec fn frames_of(tokens: Seq<Token>, frames: Seq<FrameView>) -> bool {
    &&& frames.len() == tokens.len()
    &&& forall|i: int| 0 <= i < tokens.len() ==> frame_of(tokens[i], #[trigger] frames[i])
}

/// Whether one of the tokens holds a float literal.
pub open spec fn has_floats(tokens: Seq<Token>) -> bool {
    exists|i: int, text: Seq<char>|
        0 <= i < tokens.len() && #[trigger] float_texts(tokens[i]).contains(text)
}

/// Whether `out` is what parsing makes of `text`.
///
/// The frames are those of the tokens of the text, in order. An error of the
/// text is reported as it is. Float literals are the float unit's to judge:
/// one that it rejects is a `FloatParse` with the literal, and comes before
/// an error that stands later in the text.
pub open spec fn parsed(text: Seq<char>, out: Result<Seq<FrameView>, ErrorView>) -> bool {
    let lexed = lex(text, 0);
    match out {
        Ok(frames) => lexed.error is None && frames_of(lexed.tokens, frames),
        Err(error) => lexed.error == Some(error) || (error matches ErrorView::FloatParse(text)
            && exists|i: int|
            0 <= i < lexed.tokens.len() && #[trigger] float_texts(lexed.tokens[i]).contains(text)),
    }
}

/// The frames of a source text.
///
/// Every name in the text is interned. Without float literals in the text
/// the result is determined: the frames of the tokens, or the first error.
pub fn parse<F: FloatUnit>(text: &str, names: &mut InternTable, unit: &F) -> (out: Result<
    Vec<Frame>,
    Error,
>)
    requires
        old(names).wf(),
    ensures
        final(names).wf(),
        old(names)@.subset_of(final(names)@),
        parsed(
            text@,
            match out {
                Ok(frames) => Ok(views(frames@)),
                Err(error) => Err(error@),
            },
        ),
        out is Ok ==> final(names)@ == old(names)@.union(
            names_among(lex(text@, 0).tokens, lex(text@, 0).tokens.len() as int),
        ),
        !has_floats(lex(text@, 0).tokens) ==> (out is Ok <==> lex(text@, 0).error is None),
{
    let chars = chars_of(text);
    let mut vec: Vec<Frame> = Vec::new();
    let ghost mut done: Seq<Token> = Seq::empty();
    let mut i: usize = 0;
    assert(names@.union(names_among(done, 0)) =~= names@);
    assert(done + lex(chars@, 0).tokens =~= lex(chars@, 0).tokens);
    loop
        invariant
            i <= chars.len(),
            chars@ == text@,
            names.wf(),
            old(names)@.subset_of(names@),
            names@ == old(names)@.union(names_among(done, done.len() as int)),
            lex(chars@, 0).tokens == done + lex(chars@, i as int).tokens,
            lex(chars@, 0).error == lex(chars@, i as int).error,
            frames_of(done, views(vec@)),
        decreases chars.len() - i,
    {
        let k = skip_gap(&chars, i);
        if k >= chars.len() {
            assert(done + Seq::<Token>::empty() =~= done);
            return Ok(vec);
        }
        let (word, end) = next_word(&chars, k);
        let word = match word {
            Ok(word) => word,
            Err(error) => {
                return Err(error);
            },
        };
        let ghost token = word@;
        let ghost before = names@;
        proof {
            let rest = lex(chars@, end as int);
            assert(lex(chars@, i as int).tokens == seq![token] + rest.tokens);
            assert(lex(chars@, 0).tokens =~= done.push(token) + rest.tokens);
            assert(lex(chars@, 0).tokens[done.len() as int] == token);
        }
        let ghost prior = views(vec@);
        match convert(word, names, unit) {
            Ok(frame) => {
                vec.push(frame);
                proof {
                    let grown = done.push(token);
                    assert(names_among(grown, grown.len() as int - 1) == names_among(
                        done,
                        done.len() as int,
                    )) by {
                        lemma_names_among(done, grown, done.len() as int);
                    }
                    assert(names@ =~= old(names)@.union(names_among(grown, grown.len() as int)));
                    assert forall|j: int| 0 <= j < grown.len() implies frame_of(
                        grown[j],
                        #[trigger] views(vec@)[j],
                    ) by {
                        if j < done.len() {
                            assert(views(vec@)[j] == prior[j]);
                        }
                    }
                    done = grown;
                }
                i = end;
            },
            Err(error) => {
                return Err(error);
            },
        }
    }
}

/// The names among the first tokens depend on those tokens alone.
proof fn lemma_names_among(a: Seq<Token>, b: Seq<Token>, n: int)
    requires
        0 <= n <= a.len(),
        n <= b.len(),
        forall|i: int| 0 <= i < n ==> a[i] == b[i],
    ensures
        names_among(a, n) == names_among(b, n),
    decreases n,
{
    if n > 0 {
        lemma_names_among(a, b, n - 1);
    }
}

/// The reader of an engine: it reads text into frames for the engine, with
/// the names of the text interned in the engine's table.
pub struct Reader {}

impl Reader {
    pub fn new() -> Self {
        Reader {  }
    }

    /// The frames of a source text.
    pub fn parse<F: FloatUnit>(&mut self, vm: &mut Vm<F>, string: String) -> (out: Result<
        Vec<Frame>,
        Error,
    >)
        requires
            old(vm).wf(),
        ensures
            final(vm).wf(),
            final(vm)@ == (VmView { names: final(vm)@.names, ..old(vm)@ }),
            old(vm)@.names.subset_of(final(vm)@.names),
            parsed(
                string@,
                match out {
                    Ok(frames) => Ok(views(frames@)),
                    Err(error) => Err(error@),
                },
            ),
            out is Ok ==> final(vm)@.names == old(vm)@.names.union(
                names_among(lex(string@, 0).tokens, lex(string@, 0).tokens.len() as int),
            ),
            !has_floats(lex(string@, 0).tokens) ==> (out is Ok <==> lex(string@, 0).error is None),
    {
        vm.parse(string.as_str())
    }

    /// Executes frames on the engine.
    pub fn exec<F: FloatUnit>(&mut self, vm: &mut Vm<F>, frames: Vec<Frame>, budget: u64) -> (out:
        Result<Run, Error>)
        requires
            old(vm).wf(),
        ensures
            final(vm).wf(),
            ran(
                VmView {
                    exec_stack: old(vm)@.exec_stack + views(frames@).reverse(),
                    ..old(vm)@
                },
                final(vm)@,
                budget as nat,
                match out {
                    Ok(Run::Done(Some(frame))) => Ok(Some(Some(frame@))),
                    Ok(Run::Done(None)) => Ok(Some(None)),
                    Ok(Run::Paused) => Ok(None),
                    Err(error) => Err(error@),
                },
            ),
    {
        vm.exec(frames, budget)
    }

    /// The frames of a source text, or `None` and a printed line that
    /// reports the failure.
    pub fn result<F: FloatUnit>(&mut self, vm: &mut Vm<F>, string: String) -> (out: Option<
        Vec<Frame>,
    >)
        requires
            old(vm).wf(),
        ensures
            final(vm).wf(),
            old(vm)@.names.subset_of(final(vm)@.names),
            match out {
                Some(frames) => parsed(string@, Ok(views(frames@))) && final(vm)@ == (VmView {
                    names: final(vm)@.names,
                    ..old(vm)@
                }),
                None => exists|error: ErrorView|
                    #[trigger] parsed(string@, Err(error)) && final(vm)@ == (VmView {
                        names: final(vm)@.names,
                        output: old(vm)@.output.push("Read failure: "@ + error.message()),
                        ..old(vm)@
                    }),
            },
    {
        match vm.parse(string.as_str()) {
            Err(e) => {
                let mut line: Vec<char> = Vec::new();
                push_str(&mut line, "Read failure: ");
                let text = e.message();
                push_str(&mut line, text.as_str());
                assert(line@ =~= "Read failure: "@ + e@.message());
                vm.print(string_of(&line));
                assert(parsed(string@, Err(e@)));
                None
            },
            Ok(frames) => Some(frames),
        }
    }
}

} // verus!
