//! Error values and source positions shared by the parser, the namespace and
//! the FFI layer.

use vstd::prelude::*;

verus! {

/// A position in a source file (1-based line and column; 0 when unknown).
#[derive(Debug, Clone, Copy, PartialEq, Eq, Structural)]
pub struct SourcePosition {
    pub line: usize,
    pub column: usize,
}

impl SourcePosition {
    pub fn new(line: usize, column: usize) -> (p: Self)
        ensures
            p.line == line,
            p.column == column,
    {
        SourcePosition { line, column }
    }

    /// The position used where none is known.
    pub fn unknown() -> (p: Self)
        ensures
            p.line == 0,
            p.column == 0,
    {
        SourcePosition { line: 0, column: 0 }
    }
}

/// Errors raised by the interpreter core.
#[derive(Debug, Clone)]
pub enum GraphoidError {
    SyntaxError { message: String, position: SourcePosition },
    RuntimeError { message: String },
    TypeError { message: String, position: SourcePosition },
    UndefinedVariable { name: String },
}

impl GraphoidError {
    pub fn runtime(message: String) -> (e: Self)
        ensures
            e == (GraphoidError::RuntimeError { message }),
    {
        GraphoidError::RuntimeError { message }
    }

    pub fn syntax(message: String, position: SourcePosition) -> (e: Self)
        ensures
            e == (GraphoidError::SyntaxError { message, position }),
    {
        GraphoidError::SyntaxError { message, position }
    }

    pub fn undefined_variable(name: &str) -> (e: Self)
        ensures
            e matches GraphoidError::UndefinedVariable { name: n } && n@ == name@,
    {
        GraphoidError::UndefinedVariable { name: String::from_str(name) }
    }
}

} // verus!
