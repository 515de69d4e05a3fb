//! Character classes and runs of characters.

use vstd::prelude::*;

verus! {

/// A class of characters.
#[derive(Debug, Clone, Copy, PartialEq, Eq, Structural)]
pub enum Class {
    /// White space.
    Space,
    /// The decimal digits.
    Digit,
    /// What a name is made of: all but white space and `/ { } [ ] ( )`.
    Name,
    /// All but the line feed.
    Line,
    /// All but `)`.
    Text,
    /// All but `>`.
    Inner,
    /// All but white space.
    Solid,
}

/// White space: space, tab, line feed, vertical tab, form feed, carriage
/// return.
pub open spec fn is_space(c: char) -> bool {
    c == ' ' || c == '\t' || c == '\n' || c == '\r' || c == '\x0b' || c == '\x0c'
}

/// The decimal digits `0` to `9`.
pub open spec fn is_digit(c: char) -> bool {
    c == '0' || c == '1' || c == '2' || c == '3' || c == '4' || c == '5' || c == '6' || c == '7'
        || c == '8' || c == '9'
}

/// The characters that delimit a name without being white space.
pub open spec fn is_bracket(c: char) -> bool {
    c == '/' || c == '{' || c == '}' || c == '[' || c == ']' || c == '(' || c == ')'
}

impl Class {
    /// Whether the class has the character.
    pub open spec fn has(self, c: char) -> bool {
        match self {
            Class::Space => is_space(c),
            Class::Digit => is_digit(c),
            Class::Name => !is_space(c) && !is_bracket(c),
            Class::Line => c != '\n',
            Class::Text => c != ')',
            Class::Inner => c != '>',
            Class::Solid => !is_space(c),
        }
    }

    /// Whether the class has the character.
    pub fn holds(&self, c: char) -> (out: bool)
        ensures
            out == self.has(c),
    {
        let space = c == ' ' || c == '\t' || c == '\n' || c == '\r' || c == '\x0b' || c == '\x0c';
        match self {
            Class::Space => space,
            Class::Digit => c == '0' || c == '1' || c == '2' || c == '3' || c == '4' || c == '5'
                || c == '6' || c == '7' || c == '8' || c == '9',
            Class::Name => !space && !(c == '/' || c == '{' || c == '}' || c == '[' || c == ']'
                || c == '(' || c == ')'),
            Class::Line => c != '\n',
            Class::Text => c != ')',
            Class::Inner => c != '>',
            Class::Solid => !space,
        }
    }
}

/// Where the run of characters of a class that starts at `from` ends: the
/// first place at or after `from` that holds no character of the class.
pub open spec fn run(text: Seq<char>, from: int, class: Class) -> int
    decreases text.len() - from,
{
    if 0 <= from < text.len() && class.has(text[from]) {
        run(text, from + 1, class)
    } else {
        from
    }
}

/// A run ends at or after its start and within the text, and all of it is of
/// the class.
pub proof fn lemma_run(text: Seq<char>, from: int, class: Class)
    requires
        0 <= from <= text.len(),
    ensures
        from <= run(text, from, class) <= text.len(),
        forall|i: int| from <= i < run(text, from, class) ==> class.has(#[trigger] text[i]),
        run(text, from, class) < text.len() ==> !class.has(text[run(text, from, class)]),
    decreases text.len() - from,
{
    if from < text.len() && class.has(text[from]) {
        lemma_run(text, from + 1, class);
    }
}

/// Where the run of characters of a class that starts at `from` ends.
pub fn scan(text: &Vec<char>, from: usize, class: Class) -> (to: usize)
    requires
        from <= text.len(),
    ensures
        to == run(text@, from as int, class),
        from <= to <= text.len(),
{
    let mut to = from;
    while to < text.len() && class.holds(text[to])
        invariant
            from <= to <= text.len(),
            run(text@, from as int, class) == run(text@, to as int, class),
        decreases text.len() - to,
    {
        to += 1;
    }
    to
}

/// The value of a decimal digit.
pub open spec fn digit_value(c: char) -> int {
    if c == '1' {
        1
    } else if c == '2' {
        2
    } else if c == '3' {
        3
    } else if c == '4' {
        4
    } else if c == '5' {
        5
    } else if c == '6' {
        6
    } else if c == '7' {
        7
    } else if c == '8' {
        8
    } else if c == '9' {
        9
    } else {
        0
    }
}

/// The number that decimal digits denote.
pub open spec fn number(digits: Seq<char>) -> nat
    decreases digits.len(),
{
    if digits.len() == 0 {
        0
    } else {
        (number(digits.drop_last()) * 10 + digit_value(digits.last())) as nat
    }
}

/// The value of a decimal digit.
pub fn value_of_digit(c: char) -> (out: u8)
    ensures
        out == digit_value(c),
        out < 10,
{
    if c == '1' {
        1
    } else if c == '2' {
        2
    } else if c == '3' {
        3
    } else if c == '4' {
        4
    } else if c == '5' {
        5
    } else if c == '6' {
        6
    } else if c == '7' {
        7
    } else if c == '8' {
        8
    } else if c == '9' {
        9
    } else {
        0
    }
}

/// The number that the digits `text[from..to]` denote, if it is at most
/// `limit`.
pub fn read_number(text: &Vec<char>, from: usize, to: usize, limit: u64) -> (out: Option<u64>)
    requires
        from <= to <= text.len(),
    ensures
        out == if number(text@.subrange(from as int, to as int)) <= limit {
            Some(number(text@.subrange(from as int, to as int)) as u64)
        } else {
            None
        },
{
    let mut value: u64 = 0;
    let mut i = from;
    while i < to
        invariant
            from <= i <= to <= text.len(),
            value == number(text@.subrange(from as int, i as int)),
            value <= limit,
        decreases to - i,
    {
        let d = value_of_digit(text[i]) as u64;
        proof {
            let next = text@.subrange(from as int, i as int + 1);
            assert(next.drop_last() =~= text@.subrange(from as int, i as int));
            assert(next.last() == text@[i as int]);
            lemma_number_grows(text@, from as int, i as int + 1, to as int);
        }
        if d > limit {
            return None;
        }
        if value > (limit - d) / 10 {
            assert(value * 10 + d > limit) by (nonlinear_arith)
                requires
                    value > (limit - d) / 10,
                    d <= limit,
                    0 <= d < 10,
                    value >= 0,
            ;
            return None;
        }
        assert(value * 10 + d <= limit) by (nonlinear_arith)
            requires
                value <= (limit - d) / 10,
                d <= limit,
                value >= 0,
        ;
        value = value * 10 + d;
        i += 1;
    }
    assert(text@.subrange(from as int, to as int) =~= text@.subrange(from as int, i as int));
    Some(value)
}

/// More digits denote no smaller number.
pub proof fn lemma_number_grows(text: Seq<char>, from: int, mid: int, to: int)
    requires
        0 <= from <= mid <= to <= text.len(),
    ensures
        number(text.subrange(from, mid)) <= number(text.subrange(from, to)),
    decreases to - mid,
{
    if mid < to {
        lemma_number_grows(text, from, mid, to - 1);
        let all = text.subrange(from, to);
        assert(all.drop_last() =~= text.subrange(from, to - 1));
    }
}

} // verus!
