//! The single failure kind an encoding can end in.

use vstd::prelude::*;

verus! {

/// Failure of one record's encoding: the backend rejected an entry, a
/// lazily formatted value failed to render, or the sink refused a write.
/// All are terminal for the current record; nothing is retried.
#[derive(Clone, Copy, Debug, PartialEq, Eq, Structural)]
pub enum EncodeError {
    /// Uniform serialization failure, as the sink reports it.
    Serialization,
}

impl EncodeError {
    /// A short description of the failure.
    pub fn as_str(&self) -> (r: &'static str)
        ensures
            r@ == "serde serialization error"@,
    {
        "serde serialization error"
    }
}

} // verus!
