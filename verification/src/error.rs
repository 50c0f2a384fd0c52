//! Errors: parse errors carrying a source offset resolved to
//! line/column, and the runtime errors of evaluation.

use vstd::prelude::*;
use crate::ast::{Text, ValueKind, LibFn};

verus! {

/// What went wrong while parsing.
#[derive(Debug)]
pub enum ParseErrKind {
    /// A character that can start no token.
    UnexpectedChar(char),
    /// A token was requested at a whitespace position.
    UnexpectedWhitespace,
    /// A numeric token that the number reader rejected.
    NumberFormat(Text),
    /// A list was still open when its closing parenthesis was expected.
    ExpectedClosingParen,
    /// The input ended while a form was expected.
    UnexpectedEnd,
}

/// A parse error: the character offset it arose at, and its kind.
#[derive(Debug)]
pub struct Error {
    pub idx: usize,
    pub kind: ParseErrKind,
}

/// The 1-based line number of the position after the prefix `p`.
pub open spec fn line_of(p: Seq<char>) -> nat
    decreases p.len(),
{
    if p.len() == 0 {
        1
    } else if p.last() == '\n' {
        line_of(p.drop_last()) + 1
    } else {
        line_of(p.drop_last())
    }
}

/// The 1-based column number of the position after the prefix `p`.
pub open spec fn col_of(p: Seq<char>) -> nat
    decreases p.len(),
{
    if p.len() == 0 {
        1
    } else if p.last() == '\n' {
        1
    } else {
        col_of(p.drop_last()) + 1
    }
}

impl Error {
    pub fn new(idx: usize, kind: ParseErrKind) -> (e: Error)
        ensures
            e.idx == idx,
            e.kind == kind,
    {
        Error { idx, kind }
    }

    /// The 1-based line and column of this error inside `src`, found by
    /// rescanning the source up to the recorded offset.
    pub fn position(&self, src: &Text) -> (r: (usize, usize))
        requires
            src@.len() < usize::MAX,
        ensures
            ({
                let end = if self.idx <= src@.len() {
                    self.idx as int
                } else {
                    src@.len() as int
                };
                r.0 == line_of(src@.take(end)) && r.1 == col_of(src@.take(end))
            }),
    {
        let end = if self.idx <= src.len() {
            self.idx
        } else {
            src.len()
        };
        let mut line: usize = 1;
        let mut col: usize = 1;
        let mut i: usize = 0;
        while i < end
            invariant
                src@.len() < usize::MAX,
                end <= src@.len(),
                i <= end,
                line == line_of(src@.take(i as int)),
                col == col_of(src@.take(i as int)),
                line <= i + 1,
                col <= i + 1,
            decreases end - i,
        {
            proof {
                assert(src@.take(i + 1 as int).drop_last() =~= src@.take(i as int));
            }
            if src[i] == '\n' {
                line += 1;
                col = 1;
            } else {
                col += 1;
            }
            i += 1;
        }
        (line, col)
    }
}

/// Which function an arity error cites.
#[derive(Debug)]
pub enum FunDesc {
    User,
    Lib(Text),
}

pub enum FunDescV {
    User,
    Lib(Seq<char>),
}

pub open spec fn fun_desc_view(d: FunDesc) -> FunDescV {
    match d {
        FunDesc::User => FunDescV::User,
        FunDesc::Lib(t) => FunDescV::Lib(t@),
    }
}

impl View for FunDesc {
    type V = FunDescV;

    open spec fn view(&self) -> FunDescV {
        fun_desc_view(*self)
    }
}

/// A runtime error of evaluation.  Each variant carries what the
/// diagnostic message cites.
#[derive(Debug)]
pub enum RuntimeError {
    /// An identifier had no binding.
    UnboundName(Text),
    /// The head of an application did not evaluate to a function.
    NotAFunction(ValueKind),
    /// Operand count and declared arity differ.
    ArityMismatch { expected: usize, got: usize, fun: FunDesc },
    /// `let` was given something other than a quoted symbol to bind.
    NotASymbol(ValueKind),
    /// `fn` was given a malformed parameter list.
    MalformedArgList,
    /// A quoted expression was expected as operand.
    NotQuoted(ValueKind),
    /// `car`/`cdr` was given something other than a quoted cons.
    NotACons(ValueKind),
    /// An arithmetic operand was not a number.
    NotANumber { op: LibFn, lhs: ValueKind, rhs: ValueKind },
    /// An application's operand chain was not a quote-wrapped list.
    MalformedApplication,
    /// The evaluation depth budget ran out.
    DepthLimit,
    /// The function identity counter ran out.
    TooManyFunctions,
}

pub enum ErrV {
    UnboundName(Seq<char>),
    NotAFunction(ValueKind),
    ArityMismatch { expected: usize, got: usize, fun: FunDescV },
    NotASymbol(ValueKind),
    MalformedArgList,
    NotQuoted(ValueKind),
    NotACons(ValueKind),
    NotANumber { op: LibFn, lhs: ValueKind, rhs: ValueKind },
    MalformedApplication,
    DepthLimit,
    TooManyFunctions,
}

pub open spec fn err_view(e: RuntimeError) -> ErrV {
    match e {
        RuntimeError::UnboundName(t) => ErrV::UnboundName(t@),
        RuntimeError::NotAFunction(k) => ErrV::NotAFunction(k),
        RuntimeError::ArityMismatch { expected, got, fun } => ErrV::ArityMismatch {
            expected,
            got,
            fun: fun_desc_view(fun),
        },
        RuntimeError::NotASymbol(k) => ErrV::NotASymbol(k),
        RuntimeError::MalformedArgList => ErrV::MalformedArgList,
        RuntimeError::NotQuoted(k) => ErrV::NotQuoted(k),
        RuntimeError::NotACons(k) => ErrV::NotACons(k),
        RuntimeError::NotANumber { op, lhs, rhs } => ErrV::NotANumber { op, lhs, rhs },
        RuntimeError::MalformedApplication => ErrV::MalformedApplication,
        RuntimeError::DepthLimit => ErrV::DepthLimit,
        RuntimeError::TooManyFunctions => ErrV::TooManyFunctions,
    }
}

impl View for RuntimeError {
    type V = ErrV;

    open spec fn view(&self) -> ErrV {
        err_view(*self)
    }
}

} // verus!

verus! {

pub enum PKindV {
    UnexpectedChar(char),
    UnexpectedWhitespace,
    NumberFormat(Seq<char>),
    ExpectedClosingParen,
    UnexpectedEnd,
}

/// A parse error as the specification sees it.
#[verifier::ext_equal]
pub struct PErrV {
    pub idx: int,
    pub kind: PKindV,
}

pub open spec fn parse_kind_view(k: ParseErrKind) -> PKindV {
    match k {
        ParseErrKind::UnexpectedChar(c) => PKindV::UnexpectedChar(c),
        ParseErrKind::UnexpectedWhitespace => PKindV::UnexpectedWhitespace,
        ParseErrKind::NumberFormat(t) => PKindV::NumberFormat(t@),
        ParseErrKind::ExpectedClosingParen => PKindV::ExpectedClosingParen,
        ParseErrKind::UnexpectedEnd => PKindV::UnexpectedEnd,
    }
}

impl View for Error {
    type V = PErrV;

    open spec fn view(&self) -> PErrV {
        PErrV { idx: self.idx as int, kind: parse_kind_view(self.kind) }
    }
}

} // verus!
