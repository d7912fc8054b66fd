use vstd::prelude::*;

verus! {

/// The listen channel closed before the close signal was received
#[derive(Debug, Clone, Copy, PartialEq, Eq, Structural)]
pub struct CloseError;

/// Could not send the close signal, listener for close dropped
#[derive(Debug, Clone, Copy, PartialEq, Eq, Structural)]
pub struct CloserError;

} // verus!
