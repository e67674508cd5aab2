//! The failures that the stages report.

use vstd::prelude::*;
use crate::text::{decimal, render_integer};

verus! {

/// What a positioned error says: where, and what went wrong.
pub struct Diagnostic {
    pub line: i32,
    pub col: i32,
    pub message: Seq<char>,
}

/// The text of a positioned error of the given kind: the kind, the line and
/// the column in decimal, then the message.
pub open spec fn report(kind: Seq<char>, d: Diagnostic) -> Seq<char> {
    kind + " error at l."@ + decimal(d.line as int) + ", c."@ + decimal(d.col as int) + "; "@
        + d.message
}

fn render_report(kind: &str, line: i32, col: i32, message: &String) -> (r: String)
    ensures
        r@ == report(kind@, (Diagnostic { line, col, message: message@ })),
{
    let mut r = String::from_str(kind);
    r.append(" error at l.");
    r.append(render_integer(line as i64).as_str());
    r.append(", c.");
    r.append(render_integer(col as i64).as_str());
    r.append("; ");
    r.append(message.as_str());
    r
}

/// A text that no token pattern matches.
#[derive(Debug)]
pub struct LexicalError {
    pub line: i32,
    pub col: i32,
    pub message: String,
}

impl View for LexicalError {
    type V = Diagnostic;

    open spec fn view(&self) -> Diagnostic {
        Diagnostic { line: self.line, col: self.col, message: self.message@ }
    }
}

impl LexicalError {
    /// The error as one line of text.
    pub fn to_string(&self) -> (r: String)
        ensures
            r@ == report("Lexical"@, self@),
    {
        render_report("Lexical", self.line, self.col, &self.message)
    }
}

/// A token sequence that the grammar or the declaration rules reject.
#[derive(Debug)]
pub struct SyntaxError {
    pub line: i32,
    pub col: i32,
    pub message: String,
}

impl View for SyntaxError {
    type V = Diagnostic;

    open spec fn view(&self) -> Diagnostic {
        Diagnostic { line: self.line, col: self.col, message: self.message@ }
    }
}

impl SyntaxError {
    /// The error as one line of text.
    pub fn to_string(&self) -> (r: String)
        ensures
            r@ == report("Syntax"@, self@),
    {
        render_report("Syntax", self.line, self.col, &self.message)
    }
}

/// Why the evaluation of a program stopped. The tree carries no source
/// positions, so a run-time error has a message and no line or column.
#[derive(Clone, Copy, Debug, PartialEq, Eq, Structural)]
pub enum RuntimeError {
    /// The condition of an `if` is not a boolean.
    ConditionNotBoolean,
    /// The two operands of an operation are of different types.
    OperandMismatch,
    /// A division or a remainder by zero.
    DivisionByZero,
    /// An integer result that does not fit in 64 bits.
    Overflow,
    /// An operator that booleans do not have.
    NotPermittedOnBoolean,
    /// An operator that integers do not have.
    NotPermittedOnInteger,
    /// An operator that strings do not have.
    NotPermittedOnString,
    /// A name that holds no value.
    UnresolvedIdentifier,
}

impl RuntimeError {
    /// What the error says.
    pub open spec fn message_text(self) -> Seq<char> {
        match self {
            RuntimeError::ConditionNotBoolean => "If condition must return a boolean"@,
            RuntimeError::OperandMismatch => "Cannot operand differents types"@,
            RuntimeError::DivisionByZero => "Cannot divide by 0"@,
            RuntimeError::Overflow => "Integer overflow"@,
            RuntimeError::NotPermittedOnBoolean => "Operation not permitted on boolean values"@,
            RuntimeError::NotPermittedOnInteger => "Operation not permitted on integer values"@,
            RuntimeError::NotPermittedOnString => "Operation not permitted on string values"@,
            RuntimeError::UnresolvedIdentifier => "Identifier has no value"@,
        }
    }

    /// What the error says.
    pub fn message(&self) -> (r: String)
        ensures
            r@ == self.message_text(),
    {
        String::from_str(
            match self {
                RuntimeError::ConditionNotBoolean => "If condition must return a boolean",
                RuntimeError::OperandMismatch => "Cannot operand differents types",
                RuntimeError::DivisionByZero => "Cannot divide by 0",
                RuntimeError::Overflow => "Integer overflow",
                RuntimeError::NotPermittedOnBoolean => "Operation not permitted on boolean values",
                RuntimeError::NotPermittedOnInteger => "Operation not permitted on integer values",
                RuntimeError::NotPermittedOnString => "Operation not permitted on string values",
                RuntimeError::UnresolvedIdentifier => "Identifier has no value",
            },
        )
    }

    /// The error as one line of text.
    pub fn to_string(&self) -> (r: String)
        ensures
            r@ == "Runtime error; "@ + self.message_text(),
    {
        let mut r = String::from_str("Runtime error; ");
        r.append(self.message().as_str());
        r
    }
}

} // verus!
