//! Words: what the text holds, one token at a time.

use vstd::prelude::*;

use crate::error::{Error, ErrorView};
use crate::reader::scan::{lemma_run, number, read_number, run, scan, Class};
use crate::text::push_char;

verus! {

/// The numeric kinds that a literal can be of.
#[derive(Debug, Clone, Copy, PartialEq, Eq, Structural)]
pub enum Kind {
    Float,
    Int,
    USize,
}

/// One element of an array literal.
#[derive(Debug, Clone, PartialEq, Eq)]
pub enum Element {
    /// `*`.
    NaN,
    /// A float literal, by its text.
    Float(String),
    Int(i64),
    USize(usize),
}

/// The mathematical content of an [`Element`].
pub ghost enum Item {
    NaN,
    Float(Seq<char>),
    Int(i64),
    USize(usize),
}

impl View for Element {
    type V = Item;

    open spec fn view(&self) -> Item {
        match *self {
            Element::NaN => Item::NaN,
            Element::Float(text) => Item::Float(text@),
            Element::Int(v) => Item::Int(v),
            Element::USize(v) => Item::USize(v),
        }
    }
}

/// One token, read: a number by its value, a float by its text, everything
/// else by what it holds.
#[derive(Debug, Clone, PartialEq, Eq)]
pub enum Word {
    Float(String),
    USize(usize),
    Int(i64),
    Array(Kind, Vec<Element>),
    PName(String),
    AName(String),
    String(String),
    PMark,
    MkList,
    AMark,
    MkProc,
}

/// The mathematical content of a [`Word`].
pub ghost enum Token {
    Float(Seq<char>),
    USize(usize),
    Int(i64),
    Array(Kind, Seq<Item>),
    PName(Seq<char>),
    AName(Seq<char>),
    String(Seq<char>),
    PMark,
    MkList,
    AMark,
    MkProc,
}

/// The contents of a sequence of elements.
pub open spec fn items(elements: Seq<Element>) -> Seq<Item> {
    Seq::new(elements.len(), |i: int| elements[i]@)
}

impl View for Word {
    type V = Token;

    open spec fn view(&self) -> Token {
        match *self {
            Word::Float(text) => Token::Float(text@),
            Word::USize(v) => Token::USize(v),
            Word::Int(v) => Token::Int(v),
            Word::Array(kind, elements) => Token::Array(kind, items(elements@)),
            Word::PName(name) => Token::PName(name@),
            Word::AName(name) => Token::AName(name@),
            Word::String(text) => Token::String(text@),
            Word::PMark => Token::PMark,
            Word::MkList => Token::MkList,
            Word::AMark => Token::AMark,
            Word::MkProc => Token::MkProc,
        }
    }
}

/// The character at a place, if the place is in the text.
pub open spec fn at(text: Seq<char>, i: int) -> Option<char> {
    if 0 <= i < text.len() {
        Some(text[i])
    } else {
        None
    }
}

/// The place after a sign, if one stands at `i`; else `i`.
pub open spec fn after_sign(text: Seq<char>, i: int) -> int {
    if at(text, i) == Some('+') || at(text, i) == Some('-') {
        i + 1
    } else {
        i
    }
}

/// Where the exponent that starts at `m` ends: `e` or `E`, an optional sign,
/// and digits.
pub open spec fn exponent_end(text: Seq<char>, m: int) -> Option<int> {
    if at(text, m) == Some('e') || at(text, m) == Some('E') {
        let s = after_sign(text, m + 1);
        let e = run(text, s, Class::Digit);
        if e > s {
            Some(e)
        } else {
            None
        }
    } else {
        None
    }
}

/// Where the mantissa with a point that starts at `s` ends: digits, a point
/// and any digits, or a point and digits.
pub open spec fn point_end(text: Seq<char>, s: int) -> Option<int> {
    let d = run(text, s, Class::Digit);
    if d > s && at(text, d) == Some('.') {
        Some(run(text, d + 1, Class::Digit))
    } else if d == s && at(text, s) == Some('.') && run(text, s + 1, Class::Digit) > s + 1 {
        Some(run(text, s + 1, Class::Digit))
    } else {
        None
    }
}

/// Where the float literal that starts at `i` ends: an optional sign, then
/// digits and an exponent, or a mantissa with a point and an optional
/// exponent.
pub open spec fn float_end(text: Seq<char>, i: int) -> Option<int> {
    let s = after_sign(text, i);
    let d = run(text, s, Class::Digit);
    if d > s && exponent_end(text, d) is Some {
        exponent_end(text, d)
    } else {
        match point_end(text, s) {
            Some(m) => match exponent_end(text, m) {
                Some(e) => Some(e),
                None => Some(m),
            },
            None => None,
        }
    }
}

/// Where the digits of the unsigned literal that starts at `i` end: digits
/// that a `u` follows.
pub open spec fn usize_end(text: Seq<char>, i: int) -> Option<int> {
    let d = run(text, i, Class::Digit);
    if d > i && at(text, d) == Some('u') {
        Some(d)
    } else {
        None
    }
}

/// Where the integer literal that starts at `i` ends: an optional sign and
/// digits.
pub open spec fn int_end(text: Seq<char>, i: int) -> Option<int> {
    let s = after_sign(text, i);
    let d = run(text, s, Class::Digit);
    if d > s {
        Some(d)
    } else {
        None
    }
}

/// The integer that the literal `text[i..d]` denotes.
pub open spec fn signed_value(text: Seq<char>, i: int, d: int) -> int {
    let n = number(text.subrange(after_sign(text, i), d)) as int;
    if at(text, i) == Some('-') {
        -n
    } else {
        n
    }
}

/// The place after `c`, if it stands at `i`; else `i`.
pub open spec fn after(text: Seq<char>, i: int, c: char) -> int {
    if at(text, i) == Some(c) {
        i + 1
    } else {
        i
    }
}

/// What was read at a place, and the place after it.
pub ghost struct Read<T> {
    pub what: Result<T, ErrorView>,
    pub end: int,
}

/// The literal of a kind that starts at `i`, with its optional suffix; `None`
/// if none starts there.
pub open spec fn literal_at(text: Seq<char>, i: int, kind: Kind) -> Option<Read<Item>> {
    match kind {
        Kind::Float => match float_end(text, i) {
            Some(e) => Some(
                Read { what: Ok(Item::Float(text.subrange(i, e))), end: after(text, e, 'd') },
            ),
            None => None,
        },
        Kind::USize => {
            let d = run(text, i, Class::Digit);
            if d > i {
                let n = number(text.subrange(i, d));
                Some(
                    Read {
                        what: if n <= usize::MAX {
                            Ok(Item::USize(n as usize))
                        } else {
                            Err(ErrorView::USizeParse(text.subrange(i, d)))
                        },
                        end: after(text, d, 'u'),
                    },
                )
            } else {
                None
            }
        },
        Kind::Int => match int_end(text, i) {
            Some(d) => {
                let v = signed_value(text, i, d);
                Some(
                    Read {
                        what: if i64::MIN <= v <= i64::MAX {
                            Ok(Item::Int(v as i64))
                        } else {
                            Err(ErrorView::IntParse(text.subrange(i, d)))
                        },
                        end: after(text, d, 'l'),
                    },
                )
            },
            None => None,
        },
    }
}

/// The characters `text[from..to]` as a string.
pub fn slice(text: &Vec<char>, from: usize, to: usize) -> (out: String)
    requires
        from <= to <= text.len(),
    ensures
        out@ == text@.subrange(from as int, to as int),
{
    let mut out = String::new();
    let mut i = from;
    while i < to
        invariant
            from <= i <= to <= text.len(),
            out@ == text@.subrange(from as int, i as int),
        decreases to - i,
    {
        push_char(&mut out, text[i]);
        assert(text@.subrange(from as int, i as int + 1) =~= text@.subrange(
            from as int,
            i as int,
        ).push(text@[i as int]));
        i += 1;
    }
    out
}

/// Whether `c` stands at the place `i`.
pub fn is_at(text: &Vec<char>, i: usize, c: char) -> (out: bool)
    ensures
        out == (at(text@, i as int) == Some(c)),
{
    i < text.len() && text[i] == c
}

/// The place after a sign, if one stands at `i`; else `i`.
pub fn skip_sign(text: &Vec<char>, i: usize) -> (out: usize)
    requires
        i <= text.len(),
    ensures
        out == after_sign(text@, i as int),
        i <= out <= text.len(),
{
    if is_at(text, i, '+') || is_at(text, i, '-') {
        i + 1
    } else {
        i
    }
}

/// The place after `c`, if it stands at `i`; else `i`.
pub fn skip_char(text: &Vec<char>, i: usize, c: char) -> (out: usize)
    requires
        i <= text.len(),
    ensures
        out == after(text@, i as int, c),
        i <= out <= text.len(),
{
    if is_at(text, i, c) {
        i + 1
    } else {
        i
    }
}

/// Where the exponent that starts at `m` ends.
pub fn find_exponent_end(text: &Vec<char>, m: usize) -> (out: Option<usize>)
    requires
        m <= text.len(),
    ensures
        match out {
            Some(e) => exponent_end(text@, m as int) == Some(e as int) && m < e <= text.len(),
            None => exponent_end(text@, m as int) is None,
        },
{
    if is_at(text, m, 'e') || is_at(text, m, 'E') {
        let s = skip_sign(text, m + 1);
        let e = scan(text, s, Class::Digit);
        if e > s {
            Some(e)
        } else {
            None
        }
    } else {
        None
    }
}

/// Where the float literal that starts at `i` ends.
pub fn find_float_end(text: &Vec<char>, i: usize) -> (out: Option<usize>)
    requires
        i <= text.len(),
    ensures
        match out {
            Some(e) => float_end(text@, i as int) == Some(e as int) && i < e <= text.len(),
            None => float_end(text@, i as int) is None,
        },
{
    let s = skip_sign(text, i);
    let d = scan(text, s, Class::Digit);
    if d > s {
        if let Some(e) = find_exponent_end(text, d) {
            return Some(e);
        }
    }
    let m = if d > s && is_at(text, d, '.') {
        scan(text, d + 1, Class::Digit)
    } else if d == s && is_at(text, s, '.') {
        let m = scan(text, s + 1, Class::Digit);
        if m > s + 1 {
            m
        } else {
            return None;
        }
    } else {
        return None;
    };
    match find_exponent_end(text, m) {
        Some(e) => Some(e),
        None => Some(m),
    }
}

/// The literal of a kind that starts at `i`, and the place after it; `None`
/// if none starts there.
pub fn read_literal(text: &Vec<char>, i: usize, kind: Kind) -> (out: Option<
    (Result<Element, Error>, usize),
>)
    requires
        i <= text.len(),
    ensures
        match out {
            Some((what, end)) => literal_at(text@, i as int, kind) matches Some(read) && read.end
                == end && i < end <= text.len() && match what {
                Ok(element) => read.what == Ok::<Item, ErrorView>(element@),
                Err(error) => read.what == Err::<Item, ErrorView>(error@),
            },
            None => literal_at(text@, i as int, kind) is None,
        },
{
    match kind {
        Kind::Float => match find_float_end(text, i) {
            Some(e) => Some((Ok(Element::Float(slice(text, i, e))), skip_char(text, e, 'd'))),
            None => None,
        },
        Kind::USize => {
            let d = scan(text, i, Class::Digit);
            if d > i {
                let what = match read_number(text, i, d, usize::MAX as u64) {
                    Some(n) => Ok(Element::USize(n as usize)),
                    None => Err(Error::USizeParse(slice(text, i, d))),
                };
                Some((what, skip_char(text, d, 'u')))
            } else {
                None
            }
        },
        Kind::Int => {
            let s = skip_sign(text, i);
            let d = scan(text, s, Class::Digit);
            if d > s {
                let negative = is_at(text, i, '-');
                let what = if negative {
                    match read_number(text, s, d, 0x8000_0000_0000_0000u64) {
                        Some(n) => if n == 0x8000_0000_0000_0000u64 {
                            Ok(Element::Int(i64::MIN))
                        } else {
                            Ok(Element::Int(-(n as i64)))
                        },
                        None => Err(Error::IntParse(slice(text, i, d))),
                    }
                } else {
                    match read_number(text, s, d, 0x7fff_ffff_ffff_ffffu64) {
                        Some(n) => Ok(Element::Int(n as i64)),
                        None => Err(Error::IntParse(slice(text, i, d))),
                    }
                };
                Some((what, skip_char(text, d, 'l')))
            } else {
                None
            }
        },
    }
}

/// The elements of an array literal from the place `j` of its content on:
/// white space, then `*` or a literal of the kind, again and again to the
/// end. Anything else is ill-formed, and the error carries what is left of
/// the content.
pub open spec fn elements_from(content: Seq<char>, j: int, kind: Kind) -> Result<
    Seq<Item>,
    ErrorView,
>
    decreases content.len() - j,
{
    let k = run(content, j, Class::Space);
    if k < j || k >= content.len() {
        Ok(Seq::empty())
    } else {
        let read = if content[k] == '*' {
            Some(Read { what: Ok(Item::NaN), end: k + 1 })
        } else {
            literal_at(content, k, kind)
        };
        match read {
            Some(read) => match read.what {
                Ok(item) => if read.end <= k || read.end > content.len() {
                    Err(ErrorView::Illformed(content.subrange(k, content.len() as int)))
                } else {
                    match elements_from(content, read.end, kind) {
                        Ok(rest) => Ok(seq![item] + rest),
                        Err(error) => Err(error),
                    }
                },
                Err(error) => Err(error),
            },
            None => Err(ErrorView::Illformed(content.subrange(k, content.len() as int))),
        }
    }
}

/// The elements of the array literal whose content is `text[from..to]`.
pub fn read_elements(text: &Vec<char>, from: usize, to: usize, kind: Kind) -> (out: Result<
    Vec<Element>,
    Error,
>)
    requires
        from <= to <= text.len(),
    ensures
        match out {
            Ok(elements) => elements_from(text@.subrange(from as int, to as int), 0, kind) == Ok::<
                Seq<Item>,
                ErrorView,
            >(items(elements@)),
            Err(error) => elements_from(text@.subrange(from as int, to as int), 0, kind) == Err::<
                Seq<Item>,
                ErrorView,
            >(error@),
        },
{
    let mut content: Vec<char> = Vec::new();
    let mut i = from;
    while i < to
        invariant
            from <= i <= to <= text.len(),
            content@ == text@.subrange(from as int, i as int),
        decreases to - i,
    {
        content.push(text[i]);
        assert(text@.subrange(from as int, i as int + 1) =~= text@.subrange(
            from as int,
            i as int,
        ).push(text@[i as int]));
        i += 1;
    }
    let mut out: Vec<Element> = Vec::new();
    let mut j: usize = 0;
    loop
        invariant
            j <= content.len(),
            content@ == text@.subrange(from as int, to as int),
            elements_from(content@, 0, kind) == match elements_from(content@, j as int, kind) {
                Ok(rest) => Ok::<Seq<Item>, ErrorView>(items(out@) + rest),
                Err(error) => Err::<Seq<Item>, ErrorView>(error),
            },
        decreases content.len() - j,
    {
        let k = scan(&content, j, Class::Space);
        if k >= content.len() {
            assert(items(out@) + Seq::<Item>::empty() =~= items(out@));
            return Ok(out);
        }
        let read = if content[k] == '*' {
            Some((Ok(Element::NaN), k + 1))
        } else {
            read_literal(&content, k, kind)
        };
        match read {
            Some((Ok(element), end)) => {
                proof {
                    let rest = elements_from(content@, end as int, kind);
                    if let Ok(rest) = rest {
                        assert(items(out@.push(element)) + rest =~= items(out@) + (seq![element@]
                            + rest));
                    }
                }
                out.push(element);
                j = end;
            },
            Some((Err(error), _)) => {
                return Err(error);
            },
            None => {
                let n = content.len();
                return Err(Error::Illformed(slice(&content, k, n)));
            },
        }
    }
}

/// Where the tokens start again after the gap that starts at `i`: after
/// white space and comments. A comment runs from a `|` to the end of its
/// line.
pub open spec fn gap_end(text: Seq<char>, i: int) -> int
    decreases text.len() - i,
{
    let k = run(text, i, Class::Space);
    if i <= k < text.len() && text[k] == '|' {
        let n = run(text, k, Class::Line);
        if k < n <= text.len() {
            gap_end(text, after(text, n, '\n'))
        } else {
            k
        }
    } else {
        k
    }
}

/// Where the tokens start again after the gap that starts at `i`.
pub fn skip_gap(text: &Vec<char>, i: usize) -> (out: usize)
    requires
        i <= text.len(),
    ensures
        out == gap_end(text@, i as int),
        i <= out <= text.len(),
{
    let mut j = i;
    loop
        invariant
            i <= j <= text.len(),
            gap_end(text@, i as int) == gap_end(text@, j as int),
        decreases text.len() - j,
    {
        let k = scan(text, j, Class::Space);
        if k < text.len() && text[k] == '|' {
            let n = scan(text, k, Class::Line);
            assert(k < n) by {
                assert(Class::Line.has(text@[k as int]));
                lemma_run(text@, k as int + 1, Class::Line);
            }
            j = skip_char(text, n, '\n');
        } else {
            return k;
        }
    }
}

/// The kind that the letter after the `<` of an array literal names.
pub open spec fn kind_of(c: Option<char>) -> Option<Kind> {
    if c == Some('d') {
        Some(Kind::Float)
    } else if c == Some('l') {
        Some(Kind::Int)
    } else if c == Some('u') {
        Some(Kind::USize)
    } else {
        None
    }
}

/// The array literal that starts at `i`: `<`, the letter of a kind, the
/// elements, and `>`; `None` if none starts there.
pub open spec fn array_at(text: Seq<char>, i: int) -> Option<Read<Token>> {
    let close = run(text, i + 2, Class::Inner);
    if at(text, i) == Some('<') && kind_of(at(text, i + 1)) is Some && i + 2 <= close
        < text.len() {
        let kind = kind_of(at(text, i + 1))->Some_0;
        Some(
            Read {
                what: match elements_from(text.subrange(i + 2, close), 0, kind) {
                    Ok(items) => Ok(Token::Array(kind, items)),
                    Err(error) => Err(error),
                },
                end: close + 1,
            },
        )
    } else {
        None
    }
}

/// The token that starts at `i`, a place in the text that holds neither
/// white space nor the start of a comment. The alternatives are tried in
/// order, and the first that matches decides.
pub open spec fn token_at(text: Seq<char>, i: int) -> Read<Token> {
    if float_end(text, i) is Some {
        let e = float_end(text, i)->Some_0;
        Read { what: Ok(Token::Float(text.subrange(i, e))), end: after(text, e, 'd') }
    } else if usize_end(text, i) is Some {
        let d = usize_end(text, i)->Some_0;
        let n = number(text.subrange(i, d));
        Read {
            what: if n <= usize::MAX {
                Ok(Token::USize(n as usize))
            } else {
                Err(ErrorView::USizeParse(text.subrange(i, d)))
            },
            end: d + 1,
        }
    } else if int_end(text, i) is Some {
        let d = int_end(text, i)->Some_0;
        let v = signed_value(text, i, d);
        Read {
            what: if i64::MIN <= v <= i64::MAX {
                Ok(Token::Int(v as i64))
            } else {
                Err(ErrorView::IntParse(text.subrange(i, d)))
            },
            end: after(text, d, 'l'),
        }
    } else if array_at(text, i) is Some {
        array_at(text, i)->Some_0
    } else if at(text, i) == Some('/') && run(text, i + 1, Class::Name) > i + 1 {
        let e = run(text, i + 1, Class::Name);
        Read { what: Ok(Token::PName(text.subrange(i + 1, e))), end: e }
    } else if run(text, i, Class::Name) > i {
        let e = run(text, i, Class::Name);
        Read { what: Ok(Token::AName(text.subrange(i, e))), end: e }
    } else if at(text, i) == Some('(') && run(text, i + 1, Class::Text) < text.len() {
        let e = run(text, i + 1, Class::Text);
        Read { what: Ok(Token::String(text.subrange(i + 1, e))), end: e + 1 }
    } else if at(text, i) == Some('[') {
        Read { what: Ok(Token::PMark), end: i + 1 }
    } else if at(text, i) == Some(']') {
        Read { what: Ok(Token::MkList), end: i + 1 }
    } else if at(text, i) == Some('{') {
        Read { what: Ok(Token::AMark), end: i + 1 }
    } else if at(text, i) == Some('}') {
        Read { what: Ok(Token::MkProc), end: i + 1 }
    } else {
        let e = run(text, i, Class::Solid);
        Read { what: Err(ErrorView::IllegalSym(text.subrange(i, e))), end: e }
    }
}

/// The token that starts at `i`, and the place after it.
pub fn next_word(text: &Vec<char>, i: usize) -> (out: (Result<Word, Error>, usize))
    requires
        i < text.len(),
    ensures
        out.1 == token_at(text@, i as int).end,
        i <= out.1 <= text.len(),
        out.0 is Ok ==> i < out.1,
        match out.0 {
            Ok(word) => token_at(text@, i as int).what == Ok::<Token, ErrorView>(word@),
            Err(error) => token_at(text@, i as int).what == Err::<Token, ErrorView>(error@),
        },
{
    if let Some(e) = find_float_end(text, i) {
        return (Ok(Word::Float(slice(text, i, e))), skip_char(text, e, 'd'));
    }
    let d = scan(text, i, Class::Digit);
    if d > i && is_at(text, d, 'u') {
        let what = match read_number(text, i, d, usize::MAX as u64) {
            Some(n) => Ok(Word::USize(n as usize)),
            None => Err(Error::USizeParse(slice(text, i, d))),
        };
        return (what, d + 1);
    }
    if let Some((what, end)) = read_literal(text, i, Kind::Int) {
        let what = match what {
            Ok(Element::Int(v)) => Ok(Word::Int(v)),
            Ok(_) => vstd::pervasive::unreached(),
            Err(error) => Err(error),
        };
        return (what, end);
    }
    if text[i] == '<' && i + 1 < text.len() {
        let kind = if text[i + 1] == 'd' {
            Some(Kind::Float)
        } else if text[i + 1] == 'l' {
            Some(Kind::Int)
        } else if text[i + 1] == 'u' {
            Some(Kind::USize)
        } else {
            None
        };
        if let Some(kind) = kind {
            let close = scan(text, i + 2, Class::Inner);
            if close < text.len() {
                let what = match read_elements(text, i + 2, close, kind) {
                    Ok(elements) => Ok(Word::Array(kind, elements)),
                    Err(error) => Err(error),
                };
                return (what, close + 1);
            }
        }
    }
    if text[i] == '/' {
        let e = scan(text, i + 1, Class::Name);
        if e > i + 1 {
            return (Ok(Word::PName(slice(text, i + 1, e))), e);
        }
    }
    let e = scan(text, i, Class::Name);
    if e > i {
        return (Ok(Word::AName(slice(text, i, e))), e);
    }
    if text[i] == '(' {
        let e = scan(text, i + 1, Class::Text);
        if e < text.len() {
            return (Ok(Word::String(slice(text, i + 1, e))), e + 1);
        }
    }
    if text[i] == '[' {
        return (Ok(Word::PMark), i + 1);
    }
    if text[i] == ']' {
        return (Ok(Word::MkList), i + 1);
    }
    if text[i] == '{' {
        return (Ok(Word::AMark), i + 1);
    }
    if text[i] == '}' {
        return (Ok(Word::MkProc), i + 1);
    }
    let e = scan(text, i, Class::Solid);
    (Err(Error::IllegalSym(slice(text, i, e))), e)
}

/// What lexing found: the tokens up to the end of the text or to the first
/// error, and that error.
pub ghost struct Lexed {
    pub tokens: Seq<Token>,
    pub error: Option<ErrorView>,
}

/// The tokens of the text from the place `i` on.
pub open spec fn lex(text: Seq<char>, i: int) -> Lexed
    decreases text.len() - i,
{
    let k = gap_end(text, i);
    if k < i || k >= text.len() {
        Lexed { tokens: Seq::empty(), error: None }
    } else {
        let read = token_at(text, k);
        match read.what {
            Ok(token) => if read.end <= k || read.end > text.len() {
                Lexed { tokens: Seq::empty(), error: None }
            } else {
                let rest = lex(text, read.end);
                Lexed { tokens: seq![token] + rest.tokens, error: rest.error }
            },
            Err(error) => Lexed { tokens: Seq::empty(), error: Some(error) },
        }
    }
}

} // verus!
