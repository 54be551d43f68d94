//! The `SHA3` opcode handler: pops offset and size, hashes the exact byte
//! window, pushes the digest, and logs every underlying access.

use vstd::prelude::*;
use crate::align::{align, spec_align, spec_word_count, ByteWindow};
use crate::copy_event::{build, CopyDataType};
use crate::error::Error;
use crate::keccak::{keccak256_digest, keccak_of};
use crate::memory::{window_bytes, Memory};
use crate::record::{Direction, Record, RecordKind};
use crate::stack::STACK_CAPACITY;
use crate::state::{ExecStep, State};
use crate::word::{be_to_nat, Word};

verus! {

/// The byte window the two topmost stack words ask for: the top word is the
/// start address, the word below it the length.
pub open spec fn spec_window(stack: Seq<Word>) -> ByteWindow {
    ByteWindow {
        start: stack[stack.len() - 1].spec_value() as u64,
        length: stack[stack.len() - 2].spec_value() as u64,
    }
}

/// What the handler asks of its caller beyond two stack operands: the
/// operands were validated as 64-bit quantities, and the shared counter has
/// room for the records of this operation.
pub open spec fn spec_operands_ok(pre: State) -> bool {
    let n = pre.stack@.len() as int;
    &&& pre.stack@[n - 1].fits_u64()
    &&& pre.stack@[n - 2].fits_u64()
    &&& pre.rwc + 3 + spec_word_count(spec_window(pre.stack@)) <= u64::MAX
}

/// One memory-read record: a read of the 32-byte word at `target`, logged
/// under `sequence`, whose value is the memory content there.
pub open spec fn spec_memory_read_record(rec: Record, target: int, sequence: int, mem: Memory) -> bool {
    &&& rec.kind == RecordKind::Memory
    &&& rec.target == target
    &&& rec.direction == Direction::Read
    &&& rec.sequence == sequence
    &&& forall|j: int| 0 <= j < 32 ==> rec.value@[j] == mem.byte_at(target + j)
}

/// Everything a successful run of the handler did to the state, exactly.
///
/// With `w` the requested window, `g` its aligned cover and `input` the
/// hashed bytes: the two operands were popped and the digest word pushed;
/// memory grew to the window's end (only if the window is non-empty) and no
/// byte changed; the records appended are pop(offset), pop(size),
/// push(digest), then one memory read per word of `g` in ascending address
/// order, under consecutive sequence numbers from the shared counter; one
/// copy event was appended whose payload covers `g` byte for byte, marking
/// exactly the bytes outside `w` as padding; and the hashed window joined
/// the block's hash-input collection.
pub open spec fn spec_step_ok(pre: State, post: State, step: ExecStep) -> bool {
    let n = pre.stack@.len() as int;
    let offw = pre.stack@[n - 1];
    let szw = pre.stack@[n - 2];
    let w = spec_window(pre.stack@);
    let g = spec_align(w);
    let wc = g.word_count as int;
    let input = window_bytes(pre.memory, w);
    let nr = pre.records@.len() as int;
    &&& post.call_id == pre.call_id
    &&& post.wf()
    // stack: the two operands replaced by the digest of the hashed window
    &&& post.stack@.len() == n - 1
    &&& (forall|i: int| 0 <= i < n - 2 ==> post.stack@[i] == pre.stack@[i])
    &&& post.stack@[n - 2]@ == keccak_of(input)
    &&& post.stack@[n - 2].spec_value() == be_to_nat(keccak_of(input))
    // memory: grown to cover the window when it is non-empty, bytes unchanged
    &&& post.memory.spec_size() == if w.length > 0 && w.spec_end() > pre.memory.spec_size() {
        w.spec_end()
    } else {
        pre.memory.spec_size()
    }
    &&& (forall|a: int| post.memory.byte_at(a) == pre.memory.byte_at(a))
    // shared counter: advanced once per record
    &&& post.rwc == pre.rwc + 3 + wc
    // records: the log grew by exactly this operation's accesses, in order
    &&& post.records@.len() == nr + 3 + wc
    &&& (forall|i: int| 0 <= i < nr ==> post.records@[i] == pre.records@[i])
    &&& post.records@[nr].kind == RecordKind::Stack
    &&& post.records@[nr].target == STACK_CAPACITY - n
    &&& post.records@[nr].value == offw
    &&& post.records@[nr].direction == Direction::Read
    &&& post.records@[nr].sequence == pre.rwc
    &&& post.records@[nr + 1].kind == RecordKind::Stack
    &&& post.records@[nr + 1].target == STACK_CAPACITY - n + 1
    &&& post.records@[nr + 1].value == szw
    &&& post.records@[nr + 1].direction == Direction::Read
    &&& post.records@[nr + 1].sequence == pre.rwc + 1
    &&& post.records@[nr + 2].kind == RecordKind::Stack
    &&& post.records@[nr + 2].target == STACK_CAPACITY - n + 1
    &&& post.records@[nr + 2].value@ == keccak_of(input)
    &&& post.records@[nr + 2].direction == Direction::Write
    &&& post.records@[nr + 2].sequence == pre.rwc + 2
    &&& (forall|i: int|
        nr + 3 <= i < nr + 3 + wc ==> spec_memory_read_record(
            #[trigger] post.records@[i],
            g.start_slot + 32 * (i - nr - 3),
            pre.rwc + (i - nr),
            pre.memory,
        ))
    // copy events: exactly one new event describing this movement
    &&& post.copy_events@.len() == pre.copy_events@.len() + 1
    &&& (forall|i: int|
        0 <= i < pre.copy_events@.len() ==> post.copy_events@[i] == pre.copy_events@[i])
    &&& {
        let ev = post.copy_events@.last();
        &&& ev.src_addr == w.start
        &&& ev.src_addr_end == w.spec_end()
        &&& ev.src_type == CopyDataType::Memory
        &&& ev.src_id == pre.call_id
        &&& ev.dst_addr == 0
        &&& ev.dst_type == CopyDataType::RlcAcc
        &&& ev.dst_id == pre.call_id
        &&& ev.rw_counter_start == pre.rwc + 3
        &&& ev.payload@.len() == wc * 32
        &&& (forall|i: int|
            0 <= i < ev.payload@.len() ==> ev.payload@[i].value == pre.memory.byte_at(
                g.start_slot + i,
            ))
        &&& (forall|i: int|
            0 <= i < ev.payload@.len() ==> (ev.payload@[i].is_mask <==> !w.contains(
                g.start_slot + i,
            )))
        &&& (forall|i: int| 0 <= i < ev.payload@.len() ==> !ev.payload@[i].is_code)
        &&& (forall|j: int|
            0 <= j < input.len() ==> ev.payload@[w.start - g.start_slot + j].value == input[j]
                && !ev.payload@[w.start - g.start_slot + j].is_mask)
    }
    // hash inputs: the hashed window joined the block's collection
    &&& post.sha3_inputs@.len() == pre.sha3_inputs@.len() + 1
    &&& (forall|i: int|
        0 <= i < pre.sha3_inputs@.len() ==> post.sha3_inputs@[i] == pre.sha3_inputs@[i])
    &&& post.sha3_inputs@.last()@ == input
    // the step lists this operation's sequence numbers, in emission order
    &&& step.bus_mapping_instance@.len() == 3 + wc
    &&& (forall|i: int|
        0 <= i < step.bus_mapping_instance@.len() ==> step.bus_mapping_instance@[i] == pre.rwc + i)
}

/// Order invariant: the records one operation emits carry strictly
/// increasing sequence numbers, consecutive from the shared counter, in
/// emission order — pop(offset), pop(size), push(digest), then memory reads
/// in strictly ascending address order.
pub proof fn lemma_step_records_ordered(pre: State, post: State, step: ExecStep)
    requires
        pre.stack@.len() >= 2,
        spec_step_ok(pre, post, step),
    ensures
        forall|i: int|
            pre.records@.len() <= i < post.records@.len() ==> #[trigger] post.records@[i].sequence
                == pre.rwc + (i - pre.records@.len()),
        forall|i: int, j: int|
            pre.records@.len() <= i < j < post.records@.len() ==> post.records@[i].sequence
                < post.records@[j].sequence,
        forall|i: int, j: int|
            pre.records@.len() + 3 <= i < j < post.records@.len() ==> post.records@[i].target
                < post.records@[j].target,
{
    let nr = pre.records@.len() as int;
    let g = spec_align(spec_window(pre.stack@));
    let wc = g.word_count as int;
    assert forall|i: int| nr <= i < post.records@.len() implies #[trigger] post.records@[i].sequence
        == pre.rwc + (i - nr) by {
        if i >= nr + 3 {
            assert(spec_memory_read_record(
                post.records@[i],
                g.start_slot + 32 * (i - nr - 3),
                pre.rwc + (i - nr),
                pre.memory,
            ));
        }
    }
    assert forall|i: int, j: int|
        nr + 3 <= i < j < post.records@.len() implies post.records@[i].target
        < post.records@[j].target by {
        assert(spec_memory_read_record(
            post.records@[i],
            g.start_slot + 32 * (i - nr - 3),
            pre.rwc + (i - nr),
            pre.memory,
        ));
        assert(spec_memory_read_record(
            post.records@[j],
            g.start_slot + 32 * (j - nr - 3),
            pre.rwc + (j - nr),
            pre.memory,
        ));
    }
}

/// What an independent trace oracle expects of one `SHA3` step: the two
/// operands about to be popped and the digest about to be pushed.
#[derive(Clone, Copy, Debug, PartialEq, Eq)]
pub struct OracleStep {
    pub offset: Word,
    pub size: Word,
    pub digest: Word,
}

/// An oracle agrees with a run of the handler on `pre` when its operands
/// are the two topmost stack words and its digest is the hash of the
/// requested window.
pub open spec fn spec_oracle_ok(pre: State, oracle: Option<&OracleStep>) -> bool {
    match oracle {
        None => true,
        Some(o) => {
            let n = pre.stack@.len() as int;
            &&& o.offset@ == pre.stack@[n - 1]@
            &&& o.size@ == pre.stack@[n - 2]@
            &&& o.digest@ == keccak_of(window_bytes(pre.memory, spec_window(pre.stack@)))
        },
    }
}

/// The `SHA3` opcode.
pub struct Sha3;

impl Sha3 {
    /// Replays one `SHA3` step against `state`.
    ///
    /// Pops the window's start and length off the stack, grows memory to
    /// cover a non-empty window, hashes exactly the window's bytes, pushes
    /// the digest word, then logs one read record per word of the aligned
    /// cover and appends one copy event — also for an empty window, whose
    /// event carries an empty payload.
    ///
    /// Fails with `StackUnderflow`, leaving the state untouched, exactly
    /// when the stack holds fewer than two words. In validation mode an
    /// oracle step may be injected: the handler then fails with
    /// `ConsistencyMismatch` exactly when the oracle disagrees with an
    /// operand or with the digest, and the caller discards the block's
    /// in-progress state.
    #[verifier::loop_isolation(false)]
    pub fn gen_associated_ops(state: &mut State, oracle: Option<&OracleStep>) -> (res: Result<
        ExecStep,
        Error,
    >)
        requires
            old(state).wf(),
            old(state).stack@.len() >= 2 ==> spec_operands_ok(*old(state)),
        ensures
            old(state).stack@.len() < 2 ==> res == Err::<ExecStep, Error>(Error::StackUnderflow)
                && *final(state) == *old(state),
            old(state).stack@.len() >= 2 && spec_oracle_ok(*old(state), oracle) ==> (res matches
                Ok(step) && spec_step_ok(*old(state), *final(state), step)),
            old(state).stack@.len() >= 2 && !spec_oracle_ok(*old(state), oracle) ==> res
                == Err::<ExecStep, Error>(Error::ConsistencyMismatch),
            final(state).wf(),
    {
        let ghost pre = *old(state);
        let mut exec_step = ExecStep::new();
        if state.stack.len() < 2 {
            return Err(Error::StackUnderflow);
        }
        let ghost n = pre.stack@.len() as int;

        let offset_word = match state.stack_pop(&mut exec_step) {
            Ok(word) => word,
            Err(_) => { return Err(Error::StackUnderflow); },
        };
        let size_word = match state.stack_pop(&mut exec_step) {
            Ok(word) => word,
            Err(_) => { return Err(Error::StackUnderflow); },
        };
        match oracle {
            Some(o) => {
                if !offset_word.eq_bytes(&o.offset) || !size_word.eq_bytes(&o.size) {
                    return Err(Error::ConsistencyMismatch);
                }
            },
            None => {},
        }
        let offset = offset_word.low_u64();
        let size = size_word.low_u64();
        let window = ByteWindow { start: offset, length: size };
        proof {
            assert(offset_word == pre.stack@[n - 1]);
            assert(size_word == pre.stack@[n - 2]);
            assert(window == spec_window(pre.stack@));
        }

        if size > 0 {
            let end = window.end();
            state.memory.extend_at_least(end);
        }
        let ghost grown = state.memory;

        let sha3_input = state.memory.read_window(window);
        proof {
            assert(window_bytes(grown, window) =~= window_bytes(pre.memory, window));
        }
        let digest_bytes = keccak256_digest(&sha3_input);
        let digest = Word::from_big_endian(&digest_bytes);
        match oracle {
            Some(o) => {
                if !digest.eq_bytes(&o.digest) {
                    return Err(Error::ConsistencyMismatch);
                }
            },
            None => {},
        }
        match state.stack_push(&mut exec_step, digest) {
            Ok(()) => {},
            Err(_) => { return Err(Error::StackOverflow); },
        };

        proof {
            assert(state.records@.len() == pre.records@.len() + 3);
            assert(state.records@[pre.records@.len() as int].value == pre.stack@[n - 1]);
            assert(state.records@[pre.records@.len() as int + 1].value == pre.stack@[n - 2]);
            assert(state.records@[pre.records@.len() as int + 2].value == digest);
            assert forall|i: int| 0 <= i < pre.records@.len() implies state.records@[i]
                == pre.records@[i] by {}
        }
        let rw_counter_start = state.rwc;
        let range = align(window);
        let ghost s_before_reads = *state;
        let ghost step_before_reads = exec_step;

        let mut w: u64 = 0;
        while w < range.word_count
            invariant
                0 <= w <= range.word_count,
                range == spec_align(window),
                range.wf(),
                s_before_reads.wf(),
                state.wf(),
                state.memory == s_before_reads.memory,
                state.stack == s_before_reads.stack,
                state.call_id == s_before_reads.call_id,
                state.copy_events == s_before_reads.copy_events,
                state.sha3_inputs == s_before_reads.sha3_inputs,
                state.rwc == s_before_reads.rwc + w,
                s_before_reads.rwc + range.word_count <= u64::MAX,
                state.records@.len() == s_before_reads.records@.len() + w,
                forall|i: int|
                    0 <= i < s_before_reads.records@.len() ==> state.records@[i]
                        == s_before_reads.records@[i],
                forall|i: int|
                    s_before_reads.records@.len() <= i < s_before_reads.records@.len() + w
                        ==> spec_memory_read_record(
                        #[trigger] state.records@[i],
                        range.start_slot + 32 * (i - s_before_reads.records@.len()),
                        s_before_reads.rwc + (i - s_before_reads.records@.len()),
                        s_before_reads.memory,
                    ),
                exec_step.bus_mapping_instance@.len()
                    == step_before_reads.bus_mapping_instance@.len() + w,
                forall|i: int|
                    0 <= i < step_before_reads.bus_mapping_instance@.len() ==>
                        exec_step.bus_mapping_instance@[i]
                        == step_before_reads.bus_mapping_instance@[i],
                forall|i: int|
                    step_before_reads.bus_mapping_instance@.len() <= i
                        < step_before_reads.bus_mapping_instance@.len() + w
                        ==> #[trigger] exec_step.bus_mapping_instance@[i] == s_before_reads.rwc + (
                    i - step_before_reads.bus_mapping_instance@.len()),
            decreases range.word_count - w,
        {
            proof {
                assert(w * 32 <= (range.word_count - 1) * 32);
                assert((w + 1) * 32 == w * 32 + 32);
            }
            let chunk_index = range.start_slot + w * 32;
            state.memory_read_word(&mut exec_step, chunk_index);
            w += 1;
        }

        let aligned_bytes = state.memory.read_word_range(range);
        let call_id = state.call_id;
        let event = build(window, range, &aligned_bytes, call_id, call_id, rw_counter_start);
        proof {
            assert forall|i: int| 0 <= i < event.payload@.len() implies event.payload@[i].value
                == pre.memory.byte_at(range.start_slot + i) by {
                assert(event.payload@[i].value == aligned_bytes@[i]);
                assert(aligned_bytes@[i] == s_before_reads.memory.byte_at(range.start_slot + i));
            }
        }
        state.sha3_inputs.push(sha3_input);
        state.push_copy(event);

        Ok(exec_step)
    }
}

} // verus!
