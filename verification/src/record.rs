//! Typed access records, globally ordered by sequence number.

use vstd::prelude::*;
use crate::word::Word;

verus! {

/// Which kind of storage a record touches.
#[derive(Clone, Copy, Debug, PartialEq, Eq)]
pub enum RecordKind {
    /// An operand-stack slot.
    Stack,
    /// A memory word.
    Memory,
}

/// Whether a record logs a read or a write.
#[derive(Clone, Copy, Debug, PartialEq, Eq)]
pub enum Direction {
    Read,
    Write,
}

/// One logged access: a stack slot or memory word, the value moved, the
/// direction, and the global sequence number the shared counter assigned.
#[derive(Clone, Copy, Debug, PartialEq, Eq)]
pub struct Record {
    pub kind: RecordKind,
    /// Stack slot index or memory word address.
    pub target: u64,
    pub value: Word,
    pub direction: Direction,
    pub sequence: u64,
}

} // verus!
