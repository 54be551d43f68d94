//! Copy events: the byte-exact provenance of one bulk data movement.

use vstd::prelude::*;
use crate::align::{ByteWindow, WordRange};

verus! {

/// The kind of endpoint a copy event reads from or writes to.
#[derive(Clone, Copy, Debug, PartialEq, Eq)]
pub enum CopyDataType {
    /// Byte memory of the current call.
    Memory,
    /// The running accumulator a downstream verifier folds the bytes into.
    RlcAcc,
}

/// One byte of a copy event's payload.
///
/// `is_mask` marks alignment padding: a byte inside the word-aligned range
/// but outside the logical window. `is_code` marks bytecode bytes and is
/// never set for a memory read.
#[derive(Clone, Copy, Debug, PartialEq, Eq)]
pub struct PayloadByte {
    pub value: u8,
    pub is_code: bool,
    pub is_mask: bool,
}

/// A packaged record of one bulk data movement: source and destination
/// metadata, the sequence number of its first memory-read record, and the
/// aligned byte payload with padding markers.
#[derive(Clone, Debug, PartialEq, Eq)]
pub struct CopyEvent {
    /// First address of the logical window.
    pub src_addr: u64,
    /// Saturating end address of the logical window.
    pub src_addr_end: u64,
    pub src_type: CopyDataType,
    /// Call identifier the bytes were read under.
    pub src_id: u64,
    pub dst_addr: u64,
    pub dst_type: CopyDataType,
    /// Call identifier the accumulator belongs to.
    pub dst_id: u64,
    /// Sequence number of the first memory-read record of this event.
    pub rw_counter_start: u64,
    /// One entry per byte of the word-aligned range, in address order.
    pub payload: Vec<PayloadByte>,
}

/// Packages one memory-to-accumulator movement as a copy event.
///
/// `aligned_bytes` is the memory content over the whole aligned `range`;
/// every byte of it becomes a payload entry, in address order, and a byte is
/// marked as alignment padding exactly when its absolute address lies
/// outside `window`.
pub fn build(
    window: ByteWindow,
    range: WordRange,
    aligned_bytes: &Vec<u8>,
    src_id: u64,
    dst_id: u64,
    sequence_start: u64,
) -> (ev: CopyEvent)
    requires
        range.spec_end_slot() <= u64::MAX + 1,
        aligned_bytes@.len() == range.word_count * 32,
    ensures
        ev.src_addr == window.start,
        ev.src_addr_end == window.spec_end(),
        ev.src_type == CopyDataType::Memory,
        ev.src_id == src_id,
        ev.dst_addr == 0,
        ev.dst_type == CopyDataType::RlcAcc,
        ev.dst_id == dst_id,
        ev.rw_counter_start == sequence_start,
        ev.payload@.len() == range.word_count * 32,
        forall|i: int| 0 <= i < ev.payload@.len() ==> ev.payload@[i].value == aligned_bytes@[i],
        forall|i: int| 0 <= i < ev.payload@.len() ==> (ev.payload@[i].is_mask <==> !window.contains(
            range.start_slot + i,
        )),
        forall|i: int| 0 <= i < ev.payload@.len() ==> !ev.payload@[i].is_code,
{
    let vlen = aligned_bytes.len();
    let mut payload: Vec<PayloadByte> = Vec::new();
    let window_end = window.end();
    let mut w: u64 = 0;
    while w < range.word_count
        invariant
            0 <= w <= range.word_count,
            range.spec_end_slot() <= u64::MAX + 1,
            aligned_bytes@.len() == range.word_count * 32,
            vlen == aligned_bytes@.len(),
            window_end == window.spec_end(),
            payload@.len() == w * 32,
            forall|i: int| 0 <= i < payload@.len() ==> payload@[i].value == aligned_bytes@[i],
            forall|i: int| 0 <= i < payload@.len() ==> (payload@[i].is_mask <==> !window.contains(
                range.start_slot + i,
            )),
            forall|i: int| 0 <= i < payload@.len() ==> !payload@[i].is_code,
        decreases range.word_count - w,
    {
        proof {
            assert(w * 32 <= (range.word_count - 1) * 32);
            assert((w + 1) * 32 == w * 32 + 32);
        }
        let mut j: u64 = 0;
        while j < 32
            invariant
                0 <= j <= 32,
                w < range.word_count,
                range.spec_end_slot() <= u64::MAX + 1,
                aligned_bytes@.len() == range.word_count * 32,
                vlen == aligned_bytes@.len(),
                window_end == window.spec_end(),
                w * 32 + 32 <= range.word_count * 32,
                payload@.len() == w * 32 + j,
                forall|i: int| 0 <= i < payload@.len() ==> payload@[i].value == aligned_bytes@[i],
                forall|i: int| 0 <= i < payload@.len() ==> (payload@[i].is_mask
                    <==> !window.contains(range.start_slot + i)),
                forall|i: int| 0 <= i < payload@.len() ==> !payload@[i].is_code,
            decreases 32 - j,
        {
            let idx = w * 32 + j;
            let addr = range.start_slot + idx;
            let in_window = window.start <= addr && addr < window_end;
            let value = aligned_bytes[idx as usize];
            payload.push(PayloadByte { value, is_code: false, is_mask: !in_window });
            j += 1;
        }
        w += 1;
    }
    CopyEvent {
        src_addr: window.start,
        src_addr_end: window_end,
        src_type: CopyDataType::Memory,
        src_id,
        dst_addr: 0,
        dst_type: CopyDataType::RlcAcc,
        dst_id,
        rw_counter_start: sequence_start,
        payload,
    }
}

} // verus!
