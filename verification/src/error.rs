//! The error taxonomy of the workflow: every failure is unrecoverable at the
//! point it occurs, so each variant only carries what a diagnostic needs.

use vstd::prelude::*;

verus! {

/// Why an operation was refused.
#[derive(Debug)]
pub enum Error {
    /// A branch name or a changelog document failed validation.
    Validation,
    /// The working tree or branch state does not allow the operation.
    Precondition,
    /// A project, user or merge request was missing; the payload lists the
    /// known alternatives so the operator can self-correct next time.
    NotFound(Vec<String>),
}

} // verus!
