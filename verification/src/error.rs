use vstd::prelude::*;

verus! {

/// Generic not found error
#[derive(Debug, Clone, Copy, PartialEq, Eq, Structural)]
pub struct NotFoundError;

/// Toxic update failed
#[derive(Debug, Clone, Copy, PartialEq, Eq, Structural)]
pub enum ToxicUpdateError {
    /// No such toxic with the given name
    NotFound,
    /// A toxic with the given name already exists
    AlreadyExists,
    /// Some other error
    Other,
}

impl From<NotFoundError> for ToxicUpdateError {
    fn from(_err: NotFoundError) -> (r: Self) {
        ToxicUpdateError::NotFound
    }
}

impl vstd::std_specs::convert::FromSpecImpl<NotFoundError> for ToxicUpdateError {
    open spec fn obeys_from_spec() -> bool {
        true
    }

    open spec fn from_spec(v: NotFoundError) -> ToxicUpdateError {
        ToxicUpdateError::NotFound
    }
}

} // verus!
