//! The closed diagnostic taxonomy of the engine. Every failure carries a
//! source position and renders to a human-readable message; the host is
//! responsible for reporting it.

use vstd::prelude::*;
use vstd::string::StringExecFns;
use crate::ast::Span;

verus! {

/// Mathematical view of a diagnostic.
pub enum ErrorX {
    MultipleMembers(Span),
    UnitVariant(Span),
    DuplicateType(Span),
    MismatchedArgType(Span),
    Other(Span, Seq<char>),
    Parse(Span, Seq<char>),
}

/// A diagnostic produced by synthesis. Synthesis is strictly fail-fast:
/// an operation either fully succeeds or returns exactly one `Error`,
/// never a partial result.
#[derive(Debug)]
pub enum Error {
    /// A variant has more than one payload field where exactly one is required.
    MultipleMembers(Span),
    /// A variant has no payload where exactly one is required.
    UnitVariant(Span),
    /// Two variants declare the same canonical payload-type signature.
    DuplicateType(Span),
    /// An argument matches the declared receiver pattern or type, but not both.
    MismatchedArgType(Span),
    /// A context-specific re-labeling of another kind, with its own message.
    Other(Span, String),
    /// The input fragment is not well formed; wraps the underlying parse
    /// diagnostic's message.
    Parse(Span, String),
}

impl Error {
    /// The mathematical value of this diagnostic.
    pub open spec fn deep(self) -> ErrorX {
        match self {
            Error::MultipleMembers(s) => ErrorX::MultipleMembers(s),
            Error::UnitVariant(s) => ErrorX::UnitVariant(s),
            Error::DuplicateType(s) => ErrorX::DuplicateType(s),
            Error::MismatchedArgType(s) => ErrorX::MismatchedArgType(s),
            Error::Other(s, m) => ErrorX::Other(s, m@),
            Error::Parse(s, m) => ErrorX::Parse(s, m@),
        }
    }

    /// The source position the diagnostic points at.
    pub open spec fn span_spec(self) -> Span {
        match self {
            Error::MultipleMembers(s) => s,
            Error::UnitVariant(s) => s,
            Error::DuplicateType(s) => s,
            Error::MismatchedArgType(s) => s,
            Error::Other(s, _) => s,
            Error::Parse(s, _) => s,
        }
    }

    pub fn span(&self) -> (r: Span)
        ensures
            r == self.span_spec(),
    {
        match self {
            Error::MultipleMembers(s) => *s,
            Error::UnitVariant(s) => *s,
            Error::DuplicateType(s) => *s,
            Error::MismatchedArgType(s) => *s,
            Error::Other(s, _) => *s,
            Error::Parse(s, _) => *s,
        }
    }

    /// The human-readable message of the diagnostic.
    pub open spec fn message_spec(self) -> Seq<char> {
        match self {
            Error::MultipleMembers(_) => "Enum variant has multiple members, and cannot be converted to or from an inner type"@,
            Error::UnitVariant(_) => "Enum variant is a unit variant, and cannot be converted to or from an inner type"@,
            Error::DuplicateType(_) => "Enum has multiple variants with the same type."@,
            Error::MismatchedArgType(_) => "Argument matches the declared receiver pattern or type, but not both"@,
            Error::Other(_, m) => m@,
            Error::Parse(_, m) => m@,
        }
    }

    pub fn message(&self) -> (r: String)
        ensures
            r@ == self.message_spec(),
    {
        match self {
            Error::MultipleMembers(_) => String::from_str(
                "Enum variant has multiple members, and cannot be converted to or from an inner type",
            ),
            Error::UnitVariant(_) => String::from_str(
                "Enum variant is a unit variant, and cannot be converted to or from an inner type",
            ),
            Error::DuplicateType(_) => String::from_str(
                "Enum has multiple variants with the same type.",
            ),
            Error::MismatchedArgType(_) => String::from_str(
                "Argument matches the declared receiver pattern or type, but not both",
            ),
            Error::Other(_, m) => m.clone(),
            Error::Parse(_, m) => m.clone(),
        }
    }
}

/// Structural copy of a diagnostic, equal in view to the original.
pub fn error_clone(e: &Error) -> (r: Error)
    ensures
        r.deep() == e.deep(),
{
    match e {
        Error::MultipleMembers(s) => Error::MultipleMembers(*s),
        Error::UnitVariant(s) => Error::UnitVariant(*s),
        Error::DuplicateType(s) => Error::DuplicateType(*s),
        Error::MismatchedArgType(s) => Error::MismatchedArgType(*s),
        Error::Other(s, m) => Error::Other(*s, m.clone()),
        Error::Parse(s, m) => Error::Parse(*s, m.clone()),
    }
}

} // verus!
