//! Closed set of tool failures.

use vstd::prelude::*;

verus! {

/// Stable machine-readable failure code.
#[derive(Clone, Copy, Debug, PartialEq, Eq, Structural)]
pub enum ToolErrorCode {
    Authentication,
    Validation,
    NotFound,
    Conflict,
    BoundedResult,
    Ambiguous,
    Upstream,
}

/// A tool failure. An indeterminate mutation is a conflict with its own
/// message: the write may have applied.
#[derive(Clone, Copy, Debug, PartialEq, Eq, Structural)]
pub enum ToolError {
    Authentication,
    Validation,
    NotFound,
    Conflict,
    BoundedResult,
    Ambiguous,
    Upstream,
    MutationIndeterminate,
}

/// Code of a failure.
pub open spec fn error_code(error: ToolError) -> ToolErrorCode {
    match error {
        ToolError::Authentication => ToolErrorCode::Authentication,
        ToolError::Validation => ToolErrorCode::Validation,
        ToolError::NotFound => ToolErrorCode::NotFound,
        ToolError::Conflict => ToolErrorCode::Conflict,
        ToolError::BoundedResult => ToolErrorCode::BoundedResult,
        ToolError::Ambiguous => ToolErrorCode::Ambiguous,
        ToolError::Upstream => ToolErrorCode::Upstream,
        ToolError::MutationIndeterminate => ToolErrorCode::Conflict,
    }
}

impl ToolError {
    /// The caller is not authenticated.
    pub fn authentication() -> (r: ToolError)
        ensures
            r == ToolError::Authentication,
    {
        ToolError::Authentication
    }

    /// The input is not acceptable.
    pub fn validation() -> (r: ToolError)
        ensures
            r == ToolError::Validation,
    {
        ToolError::Validation
    }

    /// The addressed entity does not exist.
    pub fn not_found() -> (r: ToolError)
        ensures
            r == ToolError::NotFound,
    {
        ToolError::NotFound
    }

    /// The addressed state is not the expected one.
    pub fn conflict() -> (r: ToolError)
        ensures
            r == ToolError::Conflict,
    {
        ToolError::Conflict
    }

    /// A result would exceed its bound.
    pub fn bounded_result() -> (r: ToolError)
        ensures
            r == ToolError::BoundedResult,
    {
        ToolError::BoundedResult
    }

    /// The service broke its contract.
    pub fn upstream() -> (r: ToolError)
        ensures
            r == ToolError::Upstream,
    {
        ToolError::Upstream
    }

    /// The mutation may or may not have applied.
    pub fn mutation_indeterminate() -> (r: ToolError)
        ensures
            r == ToolError::MutationIndeterminate,
    {
        ToolError::MutationIndeterminate
    }

    /// Stable code of the failure.
    pub fn code(&self) -> (r: ToolErrorCode)
        ensures
            r == error_code(*self),
    {
        match self {
            ToolError::Authentication => ToolErrorCode::Authentication,
            ToolError::Validation => ToolErrorCode::Validation,
            ToolError::NotFound => ToolErrorCode::NotFound,
            ToolError::Conflict => ToolErrorCode::Conflict,
            ToolError::BoundedResult => ToolErrorCode::BoundedResult,
            ToolError::Ambiguous => ToolErrorCode::Ambiguous,
            ToolError::Upstream => ToolErrorCode::Upstream,
            ToolError::MutationIndeterminate => ToolErrorCode::Conflict,
        }
    }
}

} // verus!
