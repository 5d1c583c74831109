//! BASIC run-time errors and their IchigoJam-compatible numeric codes.

use vstd::prelude::*;

verus! {

/// A BASIC run-time error. `Break` is the ESC interruption.
#[derive(Debug, Clone, Copy, PartialEq, Eq, Structural)]
#[non_exhaustive]
pub enum BasicError {
    SyntaxError,
    OutOfMemory,
    StackOverflow,
    NotMatch,
    UndefinedLine,
    DivideByZero,
    IndexOutOfRange,
    FileError,
    SegmentationFault,
    ComplexExpression,
    IllegalArgument,
    Break,
}

/// The IchigoJam number of an error (1..=12).
pub open spec fn spec_error_code(e: BasicError) -> u8 {
    match e {
        BasicError::SyntaxError => 1,
        BasicError::OutOfMemory => 2,
        BasicError::StackOverflow => 3,
        BasicError::NotMatch => 4,
        BasicError::UndefinedLine => 5,
        BasicError::DivideByZero => 6,
        BasicError::IndexOutOfRange => 7,
        BasicError::FileError => 8,
        BasicError::SegmentationFault => 9,
        BasicError::ComplexExpression => 10,
        BasicError::IllegalArgument => 11,
        BasicError::Break => 12,
    }
}

/// The error with a given IchigoJam number, `None` for 0 and for numbers above 12.
pub open spec fn spec_error_from_code(code: u8) -> Option<BasicError> {
    if code == 1 { Some(BasicError::SyntaxError) }
    else if code == 2 { Some(BasicError::OutOfMemory) }
    else if code == 3 { Some(BasicError::StackOverflow) }
    else if code == 4 { Some(BasicError::NotMatch) }
    else if code == 5 { Some(BasicError::UndefinedLine) }
    else if code == 6 { Some(BasicError::DivideByZero) }
    else if code == 7 { Some(BasicError::IndexOutOfRange) }
    else if code == 8 { Some(BasicError::FileError) }
    else if code == 9 { Some(BasicError::SegmentationFault) }
    else if code == 10 { Some(BasicError::ComplexExpression) }
    else if code == 11 { Some(BasicError::IllegalArgument) }
    else if code == 12 { Some(BasicError::Break) }
    else { None }
}

/// The text that the screen shows for an error.
pub open spec fn spec_error_message(e: BasicError) -> Seq<char> {
    match e {
        BasicError::SyntaxError => "Syntax error"@,
        BasicError::OutOfMemory => "Out of memory"@,
        BasicError::StackOverflow => "Stack overflow"@,
        BasicError::NotMatch => "Not match"@,
        BasicError::UndefinedLine => "Line error"@,
        BasicError::DivideByZero => "Divide by 0"@,
        BasicError::IndexOutOfRange => "Index out of range"@,
        BasicError::FileError => "File error"@,
        BasicError::SegmentationFault => "Segmentation Fault"@,
        BasicError::ComplexExpression => "Complex expression"@,
        BasicError::IllegalArgument => "Illegal argument"@,
        BasicError::Break => "Break"@,
    }
}

impl BasicError {
    /// The IchigoJam number of the error (1..=12).
    pub fn code(self) -> (r: u8)
        ensures
            r == spec_error_code(self),
            1 <= r <= 12,
    {
        match self {
            BasicError::SyntaxError => 1,
            BasicError::OutOfMemory => 2,
            BasicError::StackOverflow => 3,
            BasicError::NotMatch => 4,
            BasicError::UndefinedLine => 5,
            BasicError::DivideByZero => 6,
            BasicError::IndexOutOfRange => 7,
            BasicError::FileError => 8,
            BasicError::SegmentationFault => 9,
            BasicError::ComplexExpression => 10,
            BasicError::IllegalArgument => 11,
            BasicError::Break => 12,
        }
    }

    /// The error with a given number; `None` when `code` is 0 or above 12.
    pub fn from_code(code: u8) -> (r: Option<BasicError>)
        ensures
            r == spec_error_from_code(code),
            r is Some <==> 1 <= code <= 12,
    {
        match code {
            1 => Some(BasicError::SyntaxError),
            2 => Some(BasicError::OutOfMemory),
            3 => Some(BasicError::StackOverflow),
            4 => Some(BasicError::NotMatch),
            5 => Some(BasicError::UndefinedLine),
            6 => Some(BasicError::DivideByZero),
            7 => Some(BasicError::IndexOutOfRange),
            8 => Some(BasicError::FileError),
            9 => Some(BasicError::SegmentationFault),
            10 => Some(BasicError::ComplexExpression),
            11 => Some(BasicError::IllegalArgument),
            12 => Some(BasicError::Break),
            _ => None,
        }
    }

    /// The message that the screen shows for the error.
    pub fn message(self) -> (r: String)
        ensures
            r@ == spec_error_message(self),
    {
        let s: &str = match self {
            BasicError::SyntaxError => "Syntax error",
            BasicError::OutOfMemory => "Out of memory",
            BasicError::StackOverflow => "Stack overflow",
            BasicError::NotMatch => "Not match",
            BasicError::UndefinedLine => "Line error",
            BasicError::DivideByZero => "Divide by 0",
            BasicError::IndexOutOfRange => "Index out of range",
            BasicError::FileError => "File error",
            BasicError::SegmentationFault => "Segmentation Fault",
            BasicError::ComplexExpression => "Complex expression",
            BasicError::IllegalArgument => "Illegal argument",
            BasicError::Break => "Break",
        };
        String::from_str(s)
    }
}

/// Reading an error's number back gives the same error.
pub proof fn lemma_code_round_trip(e: BasicError)
    ensures
        spec_error_from_code(spec_error_code(e)) == Some(e),
{
}

/// Every number that names an error is that error's number.
pub proof fn lemma_from_code_round_trip(code: u8)
    requires
        1 <= code <= 12,
    ensures
        spec_error_from_code(code) is Some,
        spec_error_code(spec_error_from_code(code)->0) == code,
{
}

/// Distinct errors have distinct numbers.
pub proof fn lemma_code_injective(e1: BasicError, e2: BasicError)
    ensures
        spec_error_code(e1) == spec_error_code(e2) <==> e1 == e2,
{
}

} // verus!
