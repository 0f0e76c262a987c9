use vstd::prelude::*;

verus! {

/// The ways a translation can fail.
///
/// Every failure is surfaced to the caller immediately: translation is a pure
/// transform, and each of these says that the input tree was not translatable
/// as given.  Lossy fallbacks (the string-cast literal encoding, the bare
/// fallback table name) are deliberately *not* errors.
#[derive(Clone, Copy, Debug, PartialEq, Eq, Structural)]
pub enum TranslateError {
    /// A relation or expression kind that the translator does not implement,
    /// e.g. a write operation other than CREATE.
    UnsupportedOperation,
    /// A type or literal outside the supported set, with no fallback.
    UnsupportedType,
    /// A required child or field is missing from an otherwise well-typed
    /// portable node, or a reference points outside its input schema.
    MalformedPlan,
    /// A function reference whose anchor has no declaration.
    UnknownAnchor,
}

impl TranslateError {
    /// A short human-readable description of the failure.
    pub fn describe(&self) -> &'static str {
        match self {
            TranslateError::UnsupportedOperation => "unsupported operation",
            TranslateError::UnsupportedType => "unsupported type",
            TranslateError::MalformedPlan => "malformed plan",
            TranslateError::UnknownAnchor => "unknown function anchor",
        }
    }
}

} // verus!
