//! Growable, zero-filled byte memory read by the hashing operation.
//!
//! Addresses are 64-bit. Reads anywhere past the stored bytes — including
//! past the live bound — succeed and yield zero, so word-aligned reads that
//! overhang the grown region are well defined.

use vstd::prelude::*;
use crate::align::{ByteWindow, WordRange};
use crate::word::Word;

verus! {

/// The bytes of the (clamped) window `[start, end)` of `mem`, in address
/// order: what the hash primitive is fed.
pub open spec fn window_bytes(mem: Memory, window: ByteWindow) -> Seq<u8> {
    Seq::new((window.spec_end() - window.start) as nat, |i: int| mem.byte_at(window.start + i))
}

/// Byte memory that grows on demand; new space reads as zero.
pub struct Memory {
    bytes: Vec<u8>,
    size: u64,
}

impl Memory {
    /// The live bound: how many bytes the memory has been extended to cover.
    pub closed spec fn spec_size(self) -> u64 {
        self.size
    }

    /// The byte at an absolute address: stored data within bounds, zero
    /// everywhere beyond it.
    pub closed spec fn byte_at(self, addr: int) -> u8 {
        if 0 <= addr < self.bytes@.len() {
            self.bytes@[addr]
        } else {
            0
        }
    }

    /// The stored bytes never outrun the live bound.
    pub closed spec fn wf(self) -> bool {
        self.bytes@.len() <= self.size
    }

    /// An empty memory: live bound zero, every address reads zero.
    pub fn new() -> (r: Memory)
        ensures
            r.wf(),
            r.spec_size() == 0,
            forall|a: int| r.byte_at(a) == 0,
    {
        Memory { bytes: Vec::new(), size: 0 }
    }

    /// Memory preloaded with `data`; the live bound covers exactly `data`.
    pub fn from_bytes(data: Vec<u8>) -> (r: Memory)
        requires
            data@.len() <= u64::MAX,
        ensures
            r.wf(),
            r.spec_size() == data@.len(),
            forall|a: int| 0 <= a < data@.len() ==> r.byte_at(a) == data@[a],
            forall|a: int| !(0 <= a < data@.len()) ==> r.byte_at(a) == 0,
    {
        let size = data.len() as u64;
        Memory { bytes: data, size }
    }

    /// The live bound, in bytes.
    pub fn size(&self) -> (r: u64)
        ensures
            r == self.spec_size(),
    {
        self.size
    }

    /// Extends the live bound to at least `min_len` bytes. The new region
    /// reads as zero; no stored byte changes.
    pub fn extend_at_least(&mut self, min_len: u64)
        requires
            old(self).wf(),
        ensures
            final(self).wf(),
            final(self).spec_size() == if old(self).spec_size() >= min_len {
                old(self).spec_size()
            } else {
                min_len
            },
            forall|a: int| final(self).byte_at(a) == old(self).byte_at(a),
    {
        if self.size < min_len {
            self.size = min_len;
        }
    }

    /// The byte at `addr`: zero past the stored data.
    pub fn read_byte(&self, addr: u64) -> (r: u8)
        ensures
            r == self.byte_at(addr as int),
    {
        if addr < self.bytes.len() as u64 {
            self.bytes[addr as usize]
        } else {
            0
        }
    }

    /// The bytes of the (clamped) window `[start, end)`, in address order.
    pub fn read_window(&self, window: ByteWindow) -> (r: Vec<u8>)
        ensures
            r@.len() == window.spec_len(),
            forall|i: int| 0 <= i < r@.len() ==> r@[i] == self.byte_at(window.start + i),
            r@ == window_bytes(*self, window),
    {
        let end = window.end();
        let mut out: Vec<u8> = Vec::new();
        let mut addr: u64 = window.start;
        while addr < end
            invariant
                window.start <= addr <= end,
                end == window.spec_end(),
                out@.len() == addr - window.start,
                forall|i: int| 0 <= i < out@.len() ==> out@[i] == self.byte_at(window.start + i),
            decreases end - addr,
        {
            out.push(self.read_byte(addr));
            addr += 1;
        }
        proof {
            assert(out@ =~= window_bytes(*self, window));
        }
        out
    }

    /// The 32-byte word starting at `addr`, in address order.
    pub fn read_word(&self, addr: u64) -> (r: Word)
        requires
            addr <= u64::MAX - 31,
        ensures
            forall|i: int| 0 <= i < 32 ==> r@[i] == self.byte_at(addr + i),
    {
        let mut b = [0u8; 32];
        let mut i: usize = 0;
        while i < 32
            invariant
                0 <= i <= 32,
                addr <= u64::MAX - 31,
                b@.len() == 32,
                forall|j: int| 0 <= j < i ==> b@[j] == self.byte_at(addr + j),
            decreases 32 - i,
        {
            b[i] = self.read_byte(addr + i as u64);
            i += 1;
        }
        Word { bytes: b }
    }

    /// The memory content over a whole word-aligned range, in address order.
    pub fn read_word_range(&self, range: WordRange) -> (r: Vec<u8>)
        requires
            range.spec_end_slot() <= u64::MAX + 1,
        ensures
            r@.len() == range.word_count * 32,
            forall|i: int| 0 <= i < r@.len() ==> r@[i] == self.byte_at(range.start_slot + i),
    {
        let mut out: Vec<u8> = Vec::new();
        let mut w: u64 = 0;
        while w < range.word_count
            invariant
                0 <= w <= range.word_count,
                range.spec_end_slot() <= u64::MAX + 1,
                out@.len() == w * 32,
                forall|i: int| 0 <= i < out@.len() ==> out@[i] == self.byte_at(range.start_slot + i),
            decreases range.word_count - w,
        {
            proof {
                assert(w * 32 <= (range.word_count - 1) * 32);
                assert((w + 1) * 32 == w * 32 + 32);
            }
            let mut j: u64 = 0;
            while j < 32
                invariant
                    0 <= j <= 32,
                    w < range.word_count,
                    range.spec_end_slot() <= u64::MAX + 1,
                    w * 32 + 32 <= range.word_count * 32,
                    out@.len() == w * 32 + j,
                    forall|i: int| 0 <= i < out@.len() ==> out@[i] == self.byte_at(
                        range.start_slot + i,
                    ),
                decreases 32 - j,
            {
                out.push(self.read_byte(range.start_slot + (w * 32 + j)));
                j += 1;
            }
            w += 1;
        }
        out
    }
}

} // verus!
