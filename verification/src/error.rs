//! Error values raised while reading an envelope or normalizing a fragment.

use vstd::prelude::*;

verus! {

/// Why an envelope or a fragment was rejected. Every variant names the JSON
/// path or field it is about, so a caller can diagnose the offending input.
#[derive(Debug, PartialEq, Eq)]
pub enum SearchError {
    /// The envelope's total/hit structure does not have the expected shape;
    /// `path` is the JSON path that failed.
    MalformedEnvelope { path: String },
    /// A single-or-many field is neither array, object, nor (where a bare
    /// string is permitted) string.
    UnexpectedFieldShape { field: String },
    /// A nested scalar object lacks the attribute the resolution policy
    /// requires, such as `text` or `@type`.
    MissingAttribute { attribute: String },
    /// A required top-level field of the fragment is absent.
    MissingRequiredField { field: String },
    /// A field is present but not of the declared JSON type.
    TypeMismatch { field: String },
}

/// The mathematical model of a `SearchError`.
pub enum ErrorVal {
    MalformedEnvelope { path: Seq<char> },
    UnexpectedFieldShape { field: Seq<char> },
    MissingAttribute { attribute: Seq<char> },
    MissingRequiredField { field: Seq<char> },
    TypeMismatch { field: Seq<char> },
}

impl View for SearchError {
    type V = ErrorVal;

    open spec fn view(&self) -> ErrorVal {
        match *self {
            SearchError::MalformedEnvelope { path } => ErrorVal::MalformedEnvelope { path: path@ },
            SearchError::UnexpectedFieldShape { field } => ErrorVal::UnexpectedFieldShape {
                field: field@,
            },
            SearchError::MissingAttribute { attribute } => ErrorVal::MissingAttribute {
                attribute: attribute@,
            },
            SearchError::MissingRequiredField { field } => ErrorVal::MissingRequiredField {
                field: field@,
            },
            SearchError::TypeMismatch { field } => ErrorVal::TypeMismatch { field: field@ },
        }
    }
}

/// An error raised while normalizing a whole envelope. `index` is the
/// position of the fragment that failed, in extraction order, and is absent
/// when the envelope itself could not be read.
#[derive(Debug, PartialEq, Eq)]
pub struct BatchError {
    pub index: Option<usize>,
    pub error: SearchError,
}

/// The mathematical model of a `BatchError`.
pub struct BatchErrorVal {
    pub index: Option<int>,
    pub error: ErrorVal,
}

impl View for BatchError {
    type V = BatchErrorVal;

    open spec fn view(&self) -> BatchErrorVal {
        BatchErrorVal {
            index: match self.index {
                Some(i) => Some(i as int),
                None => None,
            },
            error: self.error@,
        }
    }
}

} // verus!
