//! The replay state one operation works on: call-scoped stack and memory,
//! and the block-scoped record log, counter and event collections.

use vstd::prelude::*;
use crate::copy_event::CopyEvent;
use crate::error::Error;
use crate::memory::Memory;
use crate::record::{Direction, Record, RecordKind};
use crate::stack::{Stack, STACK_CAPACITY};
use crate::word::Word;

verus! {

/// The records one operation emitted, by sequence number, in order.
pub struct ExecStep {
    pub bus_mapping_instance: Vec<u64>,
}

impl ExecStep {
    /// A step that has emitted nothing yet.
    pub fn new() -> (r: ExecStep)
        ensures
            r.bus_mapping_instance@.len() == 0,
    {
        ExecStep { bus_mapping_instance: Vec::new() }
    }
}

/// Everything an operation reads and appends to: the operand stack and
/// memory of the current call, the shared sequence counter `rwc`, and the
/// block's append-only record log and event collections.
pub struct State {
    pub stack: Stack,
    pub memory: Memory,
    /// Identifier of the current call, used as source and destination id.
    pub call_id: u64,
    /// The shared counter the next record's sequence number comes from.
    pub rwc: u64,
    /// Append-only log of every stack and memory access.
    pub records: Vec<Record>,
    /// Append-only block-level collection of copy events.
    pub copy_events: Vec<CopyEvent>,
    /// Append-only block-level collection of hashed byte windows.
    pub sha3_inputs: Vec<Vec<u8>>,
}

impl State {
    /// Sequence numbers in the log strictly increase and stay below the
    /// counter; stack and memory are well formed.
    pub open spec fn wf(self) -> bool {
        &&& self.stack.wf()
        &&& self.memory.wf()
        &&& forall|i: int, j: int|
            0 <= i < j < self.records@.len() ==> self.records@[i].sequence
                < self.records@[j].sequence
        &&& forall|i: int| 0 <= i < self.records@.len() ==> self.records@[i].sequence < self.rwc
    }

    /// Pops the top stack word and logs the read under the next sequence
    /// number. Fails with `StackUnderflow` on an empty stack, leaving the
    /// state unchanged.
    pub fn stack_pop(&mut self, step: &mut ExecStep) -> (r: Result<Word, Error>)
        requires
            old(self).wf(),
            old(self).rwc < u64::MAX,
        ensures
            final(self).wf(),
            final(self).memory == old(self).memory,
            final(self).call_id == old(self).call_id,
            final(self).copy_events == old(self).copy_events,
            final(self).sha3_inputs == old(self).sha3_inputs,
            old(self).stack@.len() == 0 ==> r == Err::<Word, Error>(Error::StackUnderflow)
                && final(self).stack@ == old(self).stack@ && final(self).rwc == old(self).rwc
                && final(self).records == old(self).records && *final(step) == *old(step),
            old(self).stack@.len() > 0 ==> {
                &&& r == Ok::<Word, Error>(old(self).stack@.last())
                &&& final(self).stack@ == old(self).stack@.drop_last()
                &&& final(self).rwc == old(self).rwc + 1
                &&& final(self).records@ == old(self).records@.push(
                    (Record {
                        kind: RecordKind::Stack,
                        target: (STACK_CAPACITY - old(self).stack@.len()) as u64,
                        value: old(self).stack@.last(),
                        direction: Direction::Read,
                        sequence: old(self).rwc,
                    }),
                )
                &&& final(step).bus_mapping_instance@ == old(step).bus_mapping_instance@.push(
                    old(self).rwc,
                )
            },
    {
        let n = self.stack.len();
        match self.stack.pop() {
            Ok(value) => {
                let sequence = self.rwc;
                self.rwc = self.rwc + 1;
                self.records.push(
                    Record {
                        kind: RecordKind::Stack,
                        target: (STACK_CAPACITY - n) as u64,
                        value,
                        direction: Direction::Read,
                        sequence,
                    },
                );
                step.bus_mapping_instance.push(sequence);
                Ok(value)
            },
            Err(e) => Err(e),
        }
    }

    /// Pushes `value` and logs the write under the next sequence number.
    /// Fails with `StackOverflow` at capacity, leaving the state unchanged.
    pub fn stack_push(&mut self, step: &mut ExecStep, value: Word) -> (r: Result<(), Error>)
        requires
            old(self).wf(),
            old(self).rwc < u64::MAX,
        ensures
            final(self).wf(),
            final(self).memory == old(self).memory,
            final(self).call_id == old(self).call_id,
            final(self).copy_events == old(self).copy_events,
            final(self).sha3_inputs == old(self).sha3_inputs,
            old(self).stack@.len() >= STACK_CAPACITY ==> r == Err::<(), Error>(
                Error::StackOverflow,
            ) && final(self).stack@ == old(self).stack@ && final(self).rwc == old(self).rwc
                && final(self).records == old(self).records && *final(step) == *old(step),
            old(self).stack@.len() < STACK_CAPACITY ==> {
                &&& r == Ok::<(), Error>(())
                &&& final(self).stack@ == old(self).stack@.push(value)
                &&& final(self).rwc == old(self).rwc + 1
                &&& final(self).records@ == old(self).records@.push(
                    (Record {
                        kind: RecordKind::Stack,
                        target: (STACK_CAPACITY - old(self).stack@.len() - 1) as u64,
                        value,
                        direction: Direction::Write,
                        sequence: old(self).rwc,
                    }),
                )
                &&& final(step).bus_mapping_instance@ == old(step).bus_mapping_instance@.push(
                    old(self).rwc,
                )
            },
    {
        let n = self.stack.len();
        match self.stack.push(value) {
            Ok(()) => {
                let sequence = self.rwc;
                self.rwc = self.rwc + 1;
                self.records.push(
                    Record {
                        kind: RecordKind::Stack,
                        target: (STACK_CAPACITY - n - 1) as u64,
                        value,
                        direction: Direction::Write,
                        sequence,
                    },
                );
                step.bus_mapping_instance.push(sequence);
                Ok(())
            },
            Err(e) => Err(e),
        }
    }

    /// Reads the memory word at `addr` and logs the read under the next
    /// sequence number.
    pub fn memory_read_word(&mut self, step: &mut ExecStep, addr: u64) -> (r: Word)
        requires
            old(self).wf(),
            old(self).rwc < u64::MAX,
            addr <= u64::MAX - 31,
        ensures
            final(self).wf(),
            final(self).memory == old(self).memory,
            final(self).stack == old(self).stack,
            final(self).call_id == old(self).call_id,
            final(self).copy_events == old(self).copy_events,
            final(self).sha3_inputs == old(self).sha3_inputs,
            forall|i: int| 0 <= i < 32 ==> r@[i] == old(self).memory.byte_at(addr + i),
            final(self).rwc == old(self).rwc + 1,
            final(self).records@ == old(self).records@.push(
                (Record {
                    kind: RecordKind::Memory,
                    target: addr,
                    value: r,
                    direction: Direction::Read,
                    sequence: old(self).rwc,
                }),
            ),
            final(step).bus_mapping_instance@ == old(step).bus_mapping_instance@.push(
                old(self).rwc,
            ),
    {
        let value = self.memory.read_word(addr);
        let sequence = self.rwc;
        self.rwc = self.rwc + 1;
        self.records.push(
            Record {
                kind: RecordKind::Memory,
                target: addr,
                value,
                direction: Direction::Read,
                sequence,
            },
        );
        step.bus_mapping_instance.push(sequence);
        value
    }

    /// Appends one copy event to the block's collection.
    pub fn push_copy(&mut self, event: CopyEvent)
        requires
            old(self).wf(),
        ensures
            final(self).wf(),
            final(self).memory == old(self).memory,
            final(self).stack == old(self).stack,
            final(self).call_id == old(self).call_id,
            final(self).rwc == old(self).rwc,
            final(self).records == old(self).records,
            final(self).sha3_inputs == old(self).sha3_inputs,
            final(self).copy_events@ == old(self).copy_events@.push(event),
    {
        self.copy_events.push(event);
    }
}

} // verus!
