//! Error taxonomy for the core: a session or file that is absent, malformed
//! persisted or wire data, a filesystem failure, or a failing collaborator.
use vstd::prelude::*;

verus! {

/// The failure cases a store or orchestrator operation can surface.
#[derive(Clone, Copy, Debug, PartialEq, Eq, Structural)]
pub enum CoreError {
    /// The requested session or file does not exist.
    NotFound,
    /// Persisted or inbound data could not be decoded.
    DecodeError,
    /// A filesystem or transport operation failed.
    IoError,
    /// The external tool/AI collaborator failed or timed out.
    CollaboratorError,
}

impl CoreError {
    /// A short label for the error, for logs and messages.
    pub fn label(&self) -> (r: &'static str)
        ensures
            r@ == self.label_spec(),
    {
        match self {
            CoreError::NotFound => "not found",
            CoreError::DecodeError => "decode error",
            CoreError::IoError => "io error",
            CoreError::CollaboratorError => "collaborator error",
        }
    }

    /// What `label` returns for each case.
    pub open spec fn label_spec(&self) -> Seq<char> {
        match self {
            CoreError::NotFound => "not found"@,
            CoreError::DecodeError => "decode error"@,
            CoreError::IoError => "io error"@,
            CoreError::CollaboratorError => "collaborator error"@,
        }
    }
}

} // verus!
