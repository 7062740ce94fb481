//! Shared result types for dispatchable state operations.

use vstd::prelude::*;

verus! {

/// The one way a state operation can fail: a checked increment would leave
/// the representable range of the configured numeric type.
#[derive(Clone, Copy, Debug, PartialEq, Eq, Structural)]
pub enum DispatchError {
    Overflow,
}

/// Result of a state operation: success carries no value, failure carries
/// the error kind.
pub type DispatchResult = Result<(), DispatchError>;

} // verus!
