//! The error kinds that operators and the engine report.

use vstd::prelude::*;

use crate::text::{decimal, push_str, push_unsigned, string_of};

verus! {

/// Why an operation did not complete. `Quit` is the one clean ending; every
/// other kind leaves the operand stack as it was before the failing operator.
#[derive(Debug, Clone, PartialEq, Eq)]
pub enum Error {
    /// A signed integer literal that the kind cannot hold; carries the literal.
    IntParse(String),
    /// A float literal that the host's float unit rejects; carries the literal.
    FloatParse(String),
    /// An unsigned integer literal that the kind cannot hold; carries the literal.
    USizeParse(String),
    /// A symbol that starts no token; carries the symbol.
    IllegalSym(String),
    /// Text that cannot be completed to a token; carries the remaining text.
    Illformed(String),
    Quit,
    StackUnderflow,
    OpType,
    Unknown(String),
    Range { len: usize, index: usize },
    Dropped,
    IllNeg,
    IllNan,
    MissingKey(String),
    LengthMismatch,
}

/// The mathematical content of an [`Error`].
pub ghost enum ErrorView {
    IntParse(Seq<char>),
    FloatParse(Seq<char>),
    USizeParse(Seq<char>),
    IllegalSym(Seq<char>),
    Illformed(Seq<char>),
    Quit,
    StackUnderflow,
    OpType,
    Unknown(Seq<char>),
    Range { len: usize, index: usize },
    Dropped,
    IllNeg,
    IllNan,
    MissingKey(Seq<char>),
    LengthMismatch,
}

impl View for Error {
    type V = ErrorView;

    open spec fn view(&self) -> ErrorView {
        match *self {
            Error::IntParse(s) => ErrorView::IntParse(s@),
            Error::FloatParse(s) => ErrorView::FloatParse(s@),
            Error::USizeParse(s) => ErrorView::USizeParse(s@),
            Error::IllegalSym(s) => ErrorView::IllegalSym(s@),
            Error::Illformed(s) => ErrorView::Illformed(s@),
            Error::Quit => ErrorView::Quit,
            Error::StackUnderflow => ErrorView::StackUnderflow,
            Error::OpType => ErrorView::OpType,
            Error::Unknown(s) => ErrorView::Unknown(s@),
            Error::Range { len, index } => ErrorView::Range { len, index },
            Error::Dropped => ErrorView::Dropped,
            Error::IllNeg => ErrorView::IllNeg,
            Error::IllNan => ErrorView::IllNan,
            Error::MissingKey(s) => ErrorView::MissingKey(s@),
            Error::LengthMismatch => ErrorView::LengthMismatch,
        }
    }
}

/// Whether a literal is written as a negative number.
pub open spec fn is_negative(literal: Seq<char>) -> bool {
    literal.len() > 0 && literal[0] == '-'
}

impl ErrorView {
    /// The message that reports the error.
    pub open spec fn message(self) -> Seq<char> {
        match self {
            ErrorView::Quit => "Quitting"@,
            ErrorView::StackUnderflow => "Stack underflow"@,
            ErrorView::OpType => "Illegal operand type"@,
            ErrorView::Unknown(s) => "Unknown name "@ + s,
            ErrorView::IntParse(s) => if is_negative(s) {
                "Int parsing error: number too small to fit in target type ("@ + s + ")"@
            } else {
                "Int parsing error: number too large to fit in target type ("@ + s + ")"@
            },
            ErrorView::FloatParse(s) => "Float parsing error: invalid float literal ("@ + s
                + ")"@,
            ErrorView::USizeParse(s) => "USize parsing error: number too large to fit in target type ("@
                + s + ")"@,
            ErrorView::IllegalSym(s) => "Illegal symbol: "@ + s,
            ErrorView::Illformed(s) => "Illformed string: "@ + s,
            ErrorView::Range { len, index } => "Illegal range: len("@ + decimal(len as int)
                + "), index("@ + decimal(index as int) + ")"@,
            ErrorView::IllNeg => "Illegal negative in range"@,
            ErrorView::IllNan => "Illegal NaN in range"@,
            ErrorView::Dropped => "Illegal reference to dropped object"@,
            ErrorView::MissingKey(s) => "Missing key "@ + s + " in Dict"@,
            ErrorView::LengthMismatch => "Length mismatch of arrays"@,
        }
    }
}

impl Error {
    /// Whether the error is the clean ending that `quit` asks for.
    pub fn is_quit(&self) -> (out: bool)
        ensures
            out == (self@ is Quit),
    {
        match self {
            Error::Quit => true,
            _ => false,
        }
    }

    /// The message that reports the error.
    pub fn message(&self) -> (out: String)
        ensures
            out@ == self@.message(),
    {
        let mut out: Vec<char> = Vec::new();
        match self {
            Error::Quit => push_str(&mut out, "Quitting"),
            Error::StackUnderflow => push_str(&mut out, "Stack underflow"),
            Error::OpType => push_str(&mut out, "Illegal operand type"),
            Error::Unknown(s) => {
                push_str(&mut out, "Unknown name ");
                push_str(&mut out, s.as_str());
            },
            Error::IntParse(s) => {
                if s.as_str().unicode_len() > 0 && s.as_str().get_char(0) == '-' {
                    push_str(
                        &mut out,
                        "Int parsing error: number too small to fit in target type (",
                    );
                } else {
                    push_str(
                        &mut out,
                        "Int parsing error: number too large to fit in target type (",
                    );
                }
                push_str(&mut out, s.as_str());
                push_str(&mut out, ")");
            },
            Error::FloatParse(s) => {
                push_str(&mut out, "Float parsing error: invalid float literal (");
                push_str(&mut out, s.as_str());
                push_str(&mut out, ")");
            },
            Error::USizeParse(s) => {
                push_str(
                    &mut out,
                    "USize parsing error: number too large to fit in target type (",
                );
                push_str(&mut out, s.as_str());
                push_str(&mut out, ")");
            },
            Error::IllegalSym(s) => {
                push_str(&mut out, "Illegal symbol: ");
                push_str(&mut out, s.as_str());
            },
            Error::Illformed(s) => {
                push_str(&mut out, "Illformed string: ");
                push_str(&mut out, s.as_str());
            },
            Error::Range { len, index } => {
                push_str(&mut out, "Illegal range: len(");
                push_unsigned(&mut out, *len);
                push_str(&mut out, "), index(");
                push_unsigned(&mut out, *index);
                push_str(&mut out, ")");
            },
            Error::IllNeg => push_str(&mut out, "Illegal negative in range"),
            Error::IllNan => push_str(&mut out, "Illegal NaN in range"),
            Error::Dropped => push_str(&mut out, "Illegal reference to dropped object"),
            Error::MissingKey(s) => {
                push_str(&mut out, "Missing key ");
                push_str(&mut out, s.as_str());
                push_str(&mut out, " in Dict");
            },
            Error::LengthMismatch => push_str(&mut out, "Length mismatch of arrays"),
        }
        assert(out@ =~= self@.message());
        string_of(&out)
    }
}

} // verus!
