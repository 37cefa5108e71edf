//! Errors of the machine.

use vstd::prelude::*;
use vstd::string::*;

verus! {

/// Why a program failed.
#[derive(Debug)]
pub enum VmError {
    CompileError,
    RuntimeError(String),
}

/// An error as the contracts speak of it.
pub enum ErrorView {
    CompileError,
    RuntimeError(Seq<char>),
}

impl View for VmError {
    type V = ErrorView;

    open spec fn view(&self) -> ErrorView {
        match self {
            VmError::CompileError => ErrorView::CompileError,
            VmError::RuntimeError(s) => ErrorView::RuntimeError(s@),
        }
    }
}

impl ErrorView {
    /// The error as text.
    pub open spec fn text(self) -> Seq<char> {
        match self {
            ErrorView::CompileError => "CompileError"@,
            ErrorView::RuntimeError(s) => "RuntimeError: "@ + s,
        }
    }
}

impl VmError {
    /// The error as text.
    pub fn to_string(&self) -> (r: String)
        ensures
            r@ == self@.text(),
    {
        match self {
            VmError::CompileError => String::from("CompileError"),
            VmError::RuntimeError(s) => {
                let mut text: String = String::from("RuntimeError: ");
                text.append(s.as_str());
                text
            },
        }
    }
}

} // verus!
