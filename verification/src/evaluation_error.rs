//! Errors a flag evaluation can surface to its caller.
use vstd::prelude::*;

verus! {

/// The kind of an evaluation error.
#[derive(Debug)]
pub enum EvaluationErrorCode {
    /// The provider has not been set up yet.
    ProviderNotReady,
    /// The flag could not be found, fetched, or its key was malformed.
    FlagNotFound,
    /// A payload could not be parsed.
    ParseError,
    /// The resolved value's type does not match the requested type.
    TypeMismatch,
    /// The context carried no targeting key.
    TargetingKeyMissing,
    /// The context was rejected.
    InvalidContext,
    /// Any other error, described by its text.
    General(String),
}

impl EvaluationErrorCode {
    /// Structural equality, with general codes compared by their text.
    pub open spec fn same(self, other: EvaluationErrorCode) -> bool {
        match self {
            EvaluationErrorCode::ProviderNotReady => other is ProviderNotReady,
            EvaluationErrorCode::FlagNotFound => other is FlagNotFound,
            EvaluationErrorCode::ParseError => other is ParseError,
            EvaluationErrorCode::TypeMismatch => other is TypeMismatch,
            EvaluationErrorCode::TargetingKeyMissing => other is TargetingKeyMissing,
            EvaluationErrorCode::InvalidContext => other is InvalidContext,
            EvaluationErrorCode::General(a) => other matches EvaluationErrorCode::General(b) && a@
                == b@,
        }
    }
}

impl Clone for EvaluationErrorCode {
    /// A copy equal to the original.
    fn clone(&self) -> (r: Self)
        ensures
            r == *self,
    {
        match self {
            EvaluationErrorCode::ProviderNotReady => EvaluationErrorCode::ProviderNotReady,
            EvaluationErrorCode::FlagNotFound => EvaluationErrorCode::FlagNotFound,
            EvaluationErrorCode::ParseError => EvaluationErrorCode::ParseError,
            EvaluationErrorCode::TypeMismatch => EvaluationErrorCode::TypeMismatch,
            EvaluationErrorCode::TargetingKeyMissing => EvaluationErrorCode::TargetingKeyMissing,
            EvaluationErrorCode::InvalidContext => EvaluationErrorCode::InvalidContext,
            EvaluationErrorCode::General(text) => EvaluationErrorCode::General(text.clone()),
        }
    }
}

impl PartialEq for EvaluationErrorCode {
    fn eq(&self, other: &Self) -> (r: bool) {
        match self {
            EvaluationErrorCode::ProviderNotReady => matches!(
                other,
                EvaluationErrorCode::ProviderNotReady
            ),
            EvaluationErrorCode::FlagNotFound => matches!(other, EvaluationErrorCode::FlagNotFound),
            EvaluationErrorCode::ParseError => matches!(other, EvaluationErrorCode::ParseError),
            EvaluationErrorCode::TypeMismatch => matches!(other, EvaluationErrorCode::TypeMismatch),
            EvaluationErrorCode::TargetingKeyMissing => matches!(
                other,
                EvaluationErrorCode::TargetingKeyMissing
            ),
            EvaluationErrorCode::InvalidContext => matches!(
                other,
                EvaluationErrorCode::InvalidContext
            ),
            EvaluationErrorCode::General(a) => match other {
                EvaluationErrorCode::General(b) => *a == *b,
                _ => false,
            },
        }
    }
}

impl vstd::std_specs::cmp::PartialEqSpecImpl for EvaluationErrorCode {
    open spec fn obeys_eq_spec() -> bool {
        true
    }

    open spec fn eq_spec(&self, other: &Self) -> bool {
        self.same(*other)
    }
}

/// An error surfaced by a flag evaluation.
#[derive(Debug)]
pub struct EvaluationError {
    /// The kind of the error.
    pub code: EvaluationErrorCode,
    /// A human-readable description of the cause, when one is known.
    pub message: Option<String>,
}

} // verus!
