//! EPT initialization errors.

use vstd::prelude::*;
use vstd::string::StringExecFns;

verus! {

/// Category of EPT initialization failure.
#[derive(Debug, Clone, Copy, PartialEq, Eq, Structural)]
pub enum EptErrorKind {
    /// Planning or layout validation failed.
    Planning,
    /// Platform requirements were not satisfied for EPT bring-up.
    Requirements,
    /// Backend rejected the init sequence.
    Backend,
}

impl EptErrorKind {
    /// The human-readable name of this kind.
    pub open spec fn text(self) -> Seq<char> {
        match self {
            EptErrorKind::Planning => "ept planning error"@,
            EptErrorKind::Requirements => "ept requirements error"@,
            EptErrorKind::Backend => "ept backend error"@,
        }
    }

    /// Renders the kind as text.
    pub fn to_string(&self) -> (s: String)
        ensures
            s@ == self.text(),
    {
        match self {
            EptErrorKind::Planning => String::from_str("ept planning error"),
            EptErrorKind::Requirements => String::from_str("ept requirements error"),
            EptErrorKind::Backend => String::from_str("ept backend error"),
        }
    }
}

/// Structured EPT initialization error.
#[derive(Debug, Clone, PartialEq, Eq)]
pub struct EptError {
    /// Error category.
    pub kind: EptErrorKind,
    /// Human-readable message.
    pub message: String,
}

impl EptError {
    /// Creates a new EPT error.
    pub fn new(kind: EptErrorKind, message: &str) -> (e: Self)
        ensures
            e.kind == kind,
            e.message@ == message@,
    {
        EptError { kind, message: String::from_str(message) }
    }

    /// Renders the error as `kind: message`.
    pub fn to_string(&self) -> (s: String)
        ensures
            s@ == self.kind.text() + ": "@ + self.message@,
    {
        let mut s = self.kind.to_string();
        s.append(": ");
        s.append(self.message.as_str());
        s
    }
}

} // verus!
