//! The errors that a recompute can report.

use vstd::prelude::*;

verus! {

/// Why a request for a patch was turned down. Either error is the caller's
/// to correct; nothing is computed and whatever mesh was published before
/// stays as it is.
#[derive(Clone, Copy, Debug, PartialEq, Eq, Structural)]
pub enum MeshError {
    /// The grid resolution is below `MIN_RESOLUTION`.
    InvalidResolution,
    /// The clipping radius is zero or negative.
    InvalidRadius,
}

impl MeshError {
    /// A short description for messages.
    pub fn describe(&self) -> (text: &'static str)
        ensures
            text@ == (match *self {
                MeshError::InvalidResolution => "grid resolution is below the minimum of 3"@,
                MeshError::InvalidRadius => "clipping radius must be positive"@,
            }),
    {
        match self {
            MeshError::InvalidResolution => "grid resolution is below the minimum of 3",
            MeshError::InvalidRadius => "clipping radius must be positive",
        }
    }
}

} // verus!
