//! The byte window requested by an operation and its word-aligned cover.

use vstd::prelude::*;

verus! {

/// The exact, possibly unaligned byte range an operation reads.
///
/// The end address `start + length` is clamped to the largest representable
/// address rather than wrapping.
#[derive(Clone, Copy, Debug, PartialEq, Eq)]
pub struct ByteWindow {
    pub start: u64,
    pub length: u64,
}

impl ByteWindow {
    /// End of the window, clamped to the largest representable address.
    pub open spec fn spec_end(self) -> u64 {
        if self.start + self.length <= u64::MAX {
            (self.start + self.length) as u64
        } else {
            u64::MAX
        }
    }

    /// Number of addressable bytes in the (clamped) window.
    pub open spec fn spec_len(self) -> int {
        self.spec_end() - self.start
    }

    /// Whether an absolute address lies inside the window.
    pub open spec fn contains(self, addr: int) -> bool {
        self.start <= addr < self.spec_end()
    }

    /// Saturating end address of the window.
    pub fn end(self) -> (r: u64)
        ensures
            r == self.spec_end(),
    {
        match self.start.checked_add(self.length) {
            Some(e) => e,
            None => u64::MAX,
        }
    }
}

/// The word-aligned range covering a [`ByteWindow`]: `word_count` words
/// starting at the aligned address `start_slot`.
#[derive(Clone, Copy, Debug, PartialEq, Eq)]
pub struct WordRange {
    pub start_slot: u64,
    pub word_count: u64,
}

impl WordRange {
    /// One past the last address covered by the range (may be `u64::MAX + 1`).
    pub open spec fn spec_end_slot(self) -> int {
        self.start_slot + self.word_count * 32
    }

    /// The range is aligned and stays within the address space.
    pub open spec fn wf(self) -> bool {
        &&& self.start_slot % 32 == 0
        &&& self.spec_end_slot() <= u64::MAX + 1
    }
}

/// The number of words the aligned cover of `window` holds: zero for an
/// empty window, else just enough words to reach the clamped end.
pub open spec fn spec_word_count(window: ByteWindow) -> int {
    if window.length == 0 {
        0
    } else {
        let start_slot = window.start - window.start % 32;
        let diff = window.spec_end() - start_slot;
        diff / 32 + if diff % 32 == 0 { 0int } else { 1int }
    }
}

/// The aligned range [`align`] computes, as a value.
pub open spec fn spec_align(window: ByteWindow) -> WordRange {
    WordRange {
        start_slot: (window.start - window.start % 32) as u64,
        word_count: spec_word_count(window) as u64,
    }
}

/// Computes the word-aligned covering range of `window`.
///
/// The result starts at `window.start` rounded down to a word boundary and
/// holds the smallest number of words whose span reaches the (saturating)
/// end of the window; an empty window yields an empty range.
pub fn align(window: ByteWindow) -> (r: WordRange)
    ensures
        r == spec_align(window),
        r.start_slot == window.start - window.start % 32,
        r.word_count == spec_word_count(window),
        r.wf(),
        r.start_slot <= window.start,
        (r.word_count == 0) <==> (window.length == 0),
        window.length > 0 ==> r.spec_end_slot() >= window.spec_end(),
        window.length > 0 ==> r.start_slot + (r.word_count - 1) * 32 < window.spec_end(),
{
    let start_slot = window.start / 32 * 32;
    if window.length == 0 {
        WordRange { start_slot, word_count: 0 }
    } else {
        let end = window.end();
        let diff = end - start_slot;
        let word_count = diff / 32 + if diff % 32 == 0 { 0 } else { 1 };
        proof {
            assert(start_slot == window.start - window.start % 32);
            assert(diff == window.spec_end() - start_slot);
            assert(start_slot + (word_count * 32) >= window.spec_end()) by {
                assert(word_count * 32 >= diff);
            };
            assert(start_slot + (word_count - 1) * 32 < window.spec_end()) by {
                assert((word_count - 1) * 32 < diff);
            };
        }
        WordRange { start_slot, word_count }
    }
}

} // verus!

