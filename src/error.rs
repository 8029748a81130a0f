use vstd::prelude::*;

use crate::cpu::InstructionError;

verus! {

/// Everything that can go wrong while parsing or compiling a listing.
#[derive(Clone, Debug)]
pub enum CompileError {
    NotEnoughArguments,
    NoCommandSupplied,
    UnknownCommand(String),
    UnknownRegister(String),
    UnknownLabel(String),
    ShiftIsTooBig(i8),
    InvalidInstruction(InstructionError),
    TooManyAttempts,
    LabelRedefined(String),
    UnexpectedEndOfFile,
    UnknownToken(char),
    InvalidNumber(String),
    UnmatchedClosingBracket,
}

/// A compile error with its text payloads seen as character sequences.
pub enum ErrorView {
    NotEnoughArguments,
    NoCommandSupplied,
    UnknownCommand(Seq<char>),
    UnknownRegister(Seq<char>),
    UnknownLabel(Seq<char>),
    ShiftIsTooBig(i8),
    InvalidInstruction(InstructionError),
    TooManyAttempts,
    LabelRedefined(Seq<char>),
    UnexpectedEndOfFile,
    UnknownToken(char),
    InvalidNumber(Seq<char>),
    UnmatchedClosingBracket,
}

impl View for CompileError {
    type V = ErrorView;

    open spec fn view(&self) -> ErrorView {
        match self {
            CompileError::NotEnoughArguments => ErrorView::NotEnoughArguments,
            CompileError::NoCommandSupplied => ErrorView::NoCommandSupplied,
            CompileError::UnknownCommand(s) => ErrorView::UnknownCommand(s@),
            CompileError::UnknownRegister(s) => ErrorView::UnknownRegister(s@),
            CompileError::UnknownLabel(s) => ErrorView::UnknownLabel(s@),
            CompileError::ShiftIsTooBig(v) => ErrorView::ShiftIsTooBig(*v),
            CompileError::InvalidInstruction(e) => ErrorView::InvalidInstruction(*e),
            CompileError::TooManyAttempts => ErrorView::TooManyAttempts,
            CompileError::LabelRedefined(s) => ErrorView::LabelRedefined(s@),
            CompileError::UnexpectedEndOfFile => ErrorView::UnexpectedEndOfFile,
            CompileError::UnknownToken(c) => ErrorView::UnknownToken(*c),
            CompileError::InvalidNumber(s) => ErrorView::InvalidNumber(s@),
            CompileError::UnmatchedClosingBracket => ErrorView::UnmatchedClosingBracket,
        }
    }
}

/// The result of a fallible compile step, seen through the views of its parts.
pub open spec fn res_view<T: View>(r: Result<T, CompileError>) -> Result<T::V, ErrorView> {
    match r {
        Ok(v) => Ok(v@),
        Err(e) => Err(e@),
    }
}

/// Relies on `String::from_iter`: the string holds the given characters in order.
#[verifier::external_body]
pub(crate) fn string_of(chars: &[char]) -> (r: String)
    ensures
        r@ == chars@,
{
    String::from_iter(chars.iter())
}

/// A place in the source text: character offset, line and column, from zero.
#[derive(Clone, Copy, Debug, Default, PartialEq, Eq, Structural)]
pub struct ParsePosition {
    pub pos: usize,
    pub line: usize,
    pub line_pos: usize,
}

impl ParsePosition {
    pub open spec fn advanced(self, ch: char) -> ParsePosition {
        if ch == '\n' {
            ParsePosition { pos: (self.pos + 1) as usize, line: (self.line + 1) as usize, line_pos: 0 }
        } else {
            ParsePosition {
                pos: (self.pos + 1) as usize,
                line: self.line,
                line_pos: (self.line_pos + 1) as usize,
            }
        }
    }

    /// Moves past one character: a newline starts the next line.
    pub fn next(&mut self, ch: char)
        requires
            old(self).pos < usize::MAX,
            old(self).line < usize::MAX,
            old(self).line_pos < usize::MAX,
        ensures
            *final(self) == old(self).advanced(ch),
    {
        self.pos = self.pos + 1;
        if ch == '\n' {
            self.line = self.line + 1;
            self.line_pos = 0;
        } else {
            self.line_pos = self.line_pos + 1;
        }
    }
}

/// A compile error together with the source range it was found in.
#[derive(Clone, Debug)]
pub struct PosCompileError {
    pub error: CompileError,
    pub start_pos: ParsePosition,
    pub end_pos: ParsePosition,
}

/// Attaching a source position to an error.
pub trait CompileErrorWithPos: Sized {
    fn with_pos(self, pos: ParsePosition) -> (r: PosCompileError);

    fn with_range(self, start: ParsePosition, end: ParsePosition) -> (r: PosCompileError);
}

impl CompileErrorWithPos for CompileError {
    fn with_pos(self, pos: ParsePosition) -> (r: PosCompileError)
        ensures
            r.error == self,
            r.start_pos == pos,
            r.end_pos == pos,
    {
        PosCompileError { error: self, start_pos: pos, end_pos: pos }
    }

    fn with_range(self, start: ParsePosition, end: ParsePosition) -> (r: PosCompileError)
        ensures
            r.error == self,
            r.start_pos == start,
            r.end_pos == end,
    {
        PosCompileError { error: self, start_pos: start, end_pos: end }
    }
}

} // verus!
