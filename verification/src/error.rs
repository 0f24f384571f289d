//! Failure taxonomy of the catalog build.
//!
//! Every failure is fail-fast: the first error aborts the whole build. A
//! schema failure names either the offending field (envelope and scalar
//! phases) or the offending line id (variant-attribute and target-line
//! phases); an unreadable secondary resource names its resource key.

use vstd::prelude::*;

verus! {

/// The mathematical image of a [`DecodeError`].
#[verifier::ext_equal]
pub enum ErrorModel {
    Schema { field: Seq<char> },
    LineAttributes { id: int },
    LineTargets { id: int },
    Json,
    Resource { key: Seq<char> },
}

/// Why a raw resource could not be decoded.
#[derive(Debug, Clone, PartialEq, Eq)]
pub enum DecodeError {
    /// A required field is missing or of the wrong shape; names the field.
    Schema { field: String },
    /// A line's variant-specific attribute payload could not be decoded;
    /// names the line.
    LineAttributes { id: i64 },
    /// A decision line without a target-line mapping, or one of whose target
    /// values is not a plain string; names the line.
    LineTargets { id: i64 },
    /// The raw text is not valid JSON.
    Json,
    /// A story's secondary resource is absent or unreadable; names the
    /// resource key.
    Resource { key: String },
}

impl View for DecodeError {
    type V = ErrorModel;

    open spec fn view(&self) -> ErrorModel {
        match self {
            DecodeError::Schema { field } => ErrorModel::Schema { field: field@ },
            DecodeError::LineAttributes { id } => ErrorModel::LineAttributes { id: *id as int },
            DecodeError::LineTargets { id } => ErrorModel::LineTargets { id: *id as int },
            DecodeError::Json => ErrorModel::Json,
            DecodeError::Resource { key } => ErrorModel::Resource { key: key@ },
        }
    }
}

/// The mathematical image of a [`BuildError`].
#[verifier::ext_equal]
pub struct BuildErrorModel {
    pub story: Option<Seq<char>>,
    pub error: ErrorModel,
}

/// A failure of the whole catalog build: the decode error, annotated with
/// the resource key of the offending story where one is known.
#[derive(Debug, Clone, PartialEq, Eq)]
pub struct BuildError {
    /// The resource key of the story whose resolution failed; `None` when
    /// the primary resource itself failed to decode.
    pub story: Option<String>,
    /// What went wrong.
    pub error: DecodeError,
}

impl View for BuildError {
    type V = BuildErrorModel;

    open spec fn view(&self) -> BuildErrorModel {
        BuildErrorModel {
            story: match &self.story {
                Some(s) => Some(s@),
                None => None,
            },
            error: self.error@,
        }
    }
}

impl ErrorModel {
    /// Every failure but an unreadable resource is a schema failure.
    pub open spec fn is_schema(self) -> bool {
        !(self is Resource)
    }
}

impl DecodeError {
    /// Whether this failure is a schema failure (any decode phase), as
    /// opposed to an unreadable secondary resource.
    pub fn is_schema(&self) -> (r: bool)
        ensures
            r == self@.is_schema(),
    {
        !matches!(self, DecodeError::Resource { .. })
    }
}

} // verus!
