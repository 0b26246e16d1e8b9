//! The refusals of the control plane.

use vstd::prelude::*;

verus! {

/// Why a control request was refused.
#[derive(Debug, PartialEq, Eq)]
pub enum ControlError {
    /// The caller may not do this.
    Forbidden(String),
    /// The caller is not known.
    Unauthenticated,
    /// The request does not make sense.
    Validation(String),
    /// There is no such thing.
    NotFound {
        /// The kind of thing.
        kind: &'static str,
        /// Its id.
        id: String,
    },
    /// The request must name the version it is based on.
    PreconditionRequired {
        /// The kind of thing.
        kind: &'static str,
    },
    /// The request is based on another version.
    VersionConflict {
        /// The kind of thing.
        kind: &'static str,
        /// Its id.
        id: String,
        /// The version that the request named.
        expected: String,
        /// The version that is current.
        actual: String,
    },
    /// A store failed.
    Repository(String),
    /// The engine's queue is full.
    EngineBusy,
}

} // verus!
