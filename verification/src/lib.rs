//! An in-memory chat registry: participants register a unique display name,
//! post messages under it, and read back a rendered transcript and a
//! diagnostics snapshot. The registry is a single aggregate; callers (an HTTP
//! front end, tests) invoke its four operations and translate the results.

use vstd::prelude::*;

pub mod laws;
pub mod model;
pub mod registry;
pub mod render;

verus! {

/// The two domain errors the registry can report. Both are ordinary results
/// for the caller, never a defect: a rejected call leaves the registry
/// unchanged.
#[derive(Clone, Copy, Debug, PartialEq, Eq, Structural)]
pub enum ChatError {
    /// A registration used a display name that a current participant holds.
    AlreadyRegistered,
    /// A post named a participant that is not registered.
    NotRegistered,
}

} // verus!
