//! Errors reported by the compiler front end.

use vstd::prelude::*;
use vstd::string::StringExecFns;
use crate::decimal::{digits, write_digits};

verus! {

/// The constructor at the head of a concrete type.
#[derive(Clone, Copy, Debug, PartialEq, Eq, Structural)]
pub enum TypeKind {
    Bool,
    Integer,
    Unit,
    Function,
}

/// Two concrete types met in a flow and do not fit.
#[derive(Clone, Copy, Debug, PartialEq, Eq, Structural)]
#[allow(inconsistent_fields)]
pub enum TypeError {
    /// The context requires `expected`, the expression produces `found`.
    TypeMismatch { expected: TypeKind, found: TypeKind },
    /// A function that declares `expected` parameters is called with `found` arguments.
    ArityMismatch { expected: usize, found: usize },
}

/// Why a compilation stopped.
#[derive(Debug, PartialEq, Eq)]
pub enum CompileError {
    /// The text is no module. Holds what is to be reported.
    SyntaxError(String),
    /// A name is used that no enclosing scope binds.
    UnboundNameError(String),
    /// Two types do not fit.
    TypeError(TypeError),
}

/// A [`CompileError`] with its texts as sequences of characters.
pub enum ErrorView {
    Syntax(Seq<char>),
    UnboundName(Seq<char>),
    Type(TypeError),
}

impl View for CompileError {
    type V = ErrorView;

    open spec fn view(&self) -> ErrorView {
        match self {
            CompileError::SyntaxError(s) => ErrorView::Syntax(s@),
            CompileError::UnboundNameError(s) => ErrorView::UnboundName(s@),
            CompileError::TypeError(e) => ErrorView::Type(*e),
        }
    }
}


impl TypeKind {
    /// The name of the kind.
    pub open spec fn name_text(self) -> Seq<char> {
        match self {
            TypeKind::Bool => "Bool"@,
            TypeKind::Integer => "Integer"@,
            TypeKind::Unit => "Unit"@,
            TypeKind::Function => "Function"@,
        }
    }

    /// The name of the kind.
    pub fn name(&self) -> (s: &'static str)
        ensures
            s@ == self.name_text(),
    {
        match self {
            TypeKind::Bool => "Bool",
            TypeKind::Integer => "Integer",
            TypeKind::Unit => "Unit",
            TypeKind::Function => "Function",
        }
    }
}

impl TypeError {
    /// What is reported of the error: the two kinds, or the two numbers.
    pub open spec fn message_text(self) -> Seq<char> {
        match self {
            TypeError::TypeMismatch { expected, found } => "type mismatch: expected "@
                + expected.name_text() + ", found "@ + found.name_text(),
            TypeError::ArityMismatch { expected, found } => "arity mismatch: expected "@ + digits(
                expected as nat,
            ) + ", found "@ + digits(found as nat),
        }
    }

    /// What is reported of the error.
    pub fn message(&self) -> (s: String)
        ensures
            s@ == self.message_text(),
    {
        match self {
            TypeError::TypeMismatch { expected, found } => {
                let mut s = String::from_str("type mismatch: expected ");
                s.append(expected.name());
                s.append(", found ");
                s.append(found.name());
                proof {
                    assert(s@ =~= self.message_text());
                }
                s
            },
            TypeError::ArityMismatch { expected, found } => {
                let mut s = String::from_str("arity mismatch: expected ");
                write_digits(*expected as u64, &mut s);
                s.append(", found ");
                write_digits(*found as u64, &mut s);
                proof {
                    assert(s@ =~= self.message_text());
                }
                s
            },
        }
    }
}

impl ErrorView {
    /// What is reported of the error.
    pub open spec fn message_text(self) -> Seq<char> {
        match self {
            ErrorView::Syntax(text) => text,
            ErrorView::UnboundName(name) => "unbound name: "@ + name,
            ErrorView::Type(e) => e.message_text(),
        }
    }
}

impl CompileError {
    /// What is reported of the error: with an unbound name the name, with
    /// two types that do not fit their kinds.
    pub fn message(&self) -> (s: String)
        ensures
            s@ == self@.message_text(),
    {
        match self {
            CompileError::SyntaxError(text) => text.clone(),
            CompileError::UnboundNameError(name) => {
                let mut s = String::from_str("unbound name: ");
                s.append(name.as_str());
                s
            },
            CompileError::TypeError(e) => e.message(),
        }
    }
}

} // verus!
