//! The error taxonomy: recoverable, typed failures and the one fault
//! that is not recoverable (exhausting the evaluation depth budget).

use vstd::prelude::*;

verus! {

/// A recoverable, typed failure.  Every variant records the structured
/// facts about the failure; rendering them as text is the caller's
/// business.
#[derive(Debug)]
pub enum MalError {
    /// A malformed token: an invalid escape, an unterminated string, or
    /// end of input where a token was expected.  Carries the character
    /// offset at which the fault was detected.
    Lex { pos: usize },
    /// A structural fault while parsing: an unclosed list, vector or
    /// map, a malformed numeral, a wrong key type in a map literal.
    Reader { pos: usize },
    /// A structural fault in a special form found during evaluation,
    /// such as a misplaced variadic marker; `name` is the form's name.
    BadForm { name: String },
    /// An operation received a value of the wrong shape.
    Type { expected: String, got: String },
    /// A lookup of an undefined name.
    Unbound { name: String },
    /// A form or function applied to the wrong number of arguments;
    /// `at_least` tells whether `expected` is a minimum or exact.
    Arity { name: String, expected: usize, at_least: bool, got: usize },
    /// A division with a zero divisor.
    DivisionByZero,
}

/// Spec-level mirror of [`MalError`].
pub enum ErrV {
    Lex(nat),
    Reader(nat),
    BadForm(Seq<char>),
    Type(Seq<char>, Seq<char>),
    Unbound(Seq<char>),
    Arity(Seq<char>, nat, bool, nat),
    DivisionByZero,
}

impl View for MalError {
    type V = ErrV;

    open spec fn view(&self) -> ErrV {
        match *self {
            MalError::Lex { pos } => ErrV::Lex(pos as nat),
            MalError::Reader { pos } => ErrV::Reader(pos as nat),
            MalError::BadForm { ref name } => ErrV::BadForm(name@),
            MalError::Type { ref expected, ref got } => ErrV::Type(expected@, got@),
            MalError::Unbound { ref name } => ErrV::Unbound(name@),
            MalError::Arity { ref name, expected, at_least, got } => ErrV::Arity(
                name@,
                expected as nat,
                at_least,
                got as nat,
            ),
            MalError::DivisionByZero => ErrV::DivisionByZero,
        }
    }
}

/// How an evaluation can end without a value: a typed, recoverable
/// error, or the unrecoverable fault of running out of nesting depth
/// (the explicit analogue of exhausting the host call stack).
#[derive(Debug)]
pub enum Failure {
    Error(MalError),
    DepthExceeded,
}

/// Spec-level mirror of [`Failure`].
pub enum FailV {
    Error(ErrV),
    DepthExceeded,
}

impl View for Failure {
    type V = FailV;

    open spec fn view(&self) -> FailV {
        match *self {
            Failure::Error(ref e) => FailV::Error(e@),
            Failure::DepthExceeded => FailV::DepthExceeded,
        }
    }
}

} // verus!

verus! {

/// An internal-invariant violation: a defect, not bad input.  Distinct
/// from the recoverable taxonomy; the caller is expected to stop.
#[derive(Debug)]
pub enum FatalError {
    /// A builtin was registered twice at startup.
    NativeRegisteredTwice,
}

} // verus!

verus! {

/// The number of line ends before position `p`.
pub open spec fn newlines_before(src: Seq<char>, p: int) -> int
    decreases p,
{
    if p <= 0 {
        0
    } else {
        newlines_before(src, p - 1) + (if src[p - 1] == '\n' {
            1int
        } else {
            0int
        })
    }
}

/// The position right after the last line end before `p`.
pub open spec fn line_start(src: Seq<char>, p: int) -> int
    decreases p,
{
    if p <= 0 {
        0
    } else if src[p - 1] == '\n' {
        p
    } else {
        line_start(src, p - 1)
    }
}

/// The one-based line and column of a character offset, computed only
/// when an error is formatted.
pub open spec fn linepos_v(src: Seq<char>, pos: int) -> (int, int) {
    let p = if pos <= src.len() {
        pos
    } else {
        src.len() as int
    };
    (1 + newlines_before(src, p), p - line_start(src, p) + 1)
}

/// The line and column of an offset, by scanning the source up to it.
#[verifier::loop_isolation(false)]
pub fn linepos(src: &str, pos: usize) -> (r: (usize, usize))
    requires
        src@.len() < usize::MAX,
    ensures
        (r.0 as int, r.1 as int) == linepos_v(src@, pos as int),
{
    let n = vstd::string::StrSliceExecFns::unicode_len(src);
    let p = if pos <= n {
        pos
    } else {
        n
    };
    let mut i: usize = 0;
    let mut lineno: usize = 1;
    let mut ls: usize = 0;
    while i < p
        invariant
            i <= p,
            lineno <= i + 1,
            ls <= i,
            lineno == 1 + newlines_before(src@, i as int),
            ls == line_start(src@, i as int),
        decreases p - i,
    {
        if vstd::string::StrSliceExecFns::get_char(src, i) == '\n' {
            lineno = lineno + 1;
            ls = i + 1;
        }
        i = i + 1;
    }
    (lineno, p - ls + 1)
}

/// The "line:column" rendering of an offset.
pub fn linepos_str(src: &str, pos: usize) -> (r: String)
    requires
        src@.len() < usize::MAX,
    ensures
        ({
            let (line, col) = linepos_v(src@, pos as int);
            r@ == crate::numtext::u_dec_v(line as nat) + seq![':'] + crate::numtext::u_dec_v(
                col as nat,
            )
        }),
{
    let (line, col) = linepos(src, pos);
    let mut buf: Vec<char> = Vec::new();
    crate::numtext::push_u_dec(line as u64, &mut buf);
    buf.push(':');
    crate::numtext::push_u_dec(col as u64, &mut buf);
    proof {
        assert(buf@ =~= crate::numtext::u_dec_v(line as nat) + seq![':']
            + crate::numtext::u_dec_v(col as nat));
    }
    crate::types::chars_to_string(&buf)
}

} // verus!
