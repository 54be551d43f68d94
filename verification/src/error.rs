//! Failures surfaced to the caller; each is fatal for the current block.

use vstd::prelude::*;

verus! {

/// What went wrong while replaying one operation.
#[derive(Clone, Copy, Debug, PartialEq, Eq)]
pub enum Error {
    /// A stack pop found no value to pop.
    StackUnderflow,
    /// A stack push found the stack at capacity.
    StackOverflow,
    /// A validation-mode oracle disagrees with a locally computed operand
    /// or digest.
    ConsistencyMismatch,
}

} // verus!
