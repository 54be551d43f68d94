use bus_mapping::align::{align, ByteWindow};
use bus_mapping::copy_event::CopyDataType;
use bus_mapping::error::Error;
use bus_mapping::memory::Memory;
use bus_mapping::record::{Direction, RecordKind};
use bus_mapping::sha3::{OracleStep, Sha3};
use bus_mapping::stack::Stack;
use bus_mapping::state::State;
use bus_mapping::word::Word;
use ethers_core::utils::keccak256;
use rand::{random, Rng};

/// Memory of a context with respect to the input size to SHA3.
pub enum MemoryKind {
    /// Variant defining empty memory.
    Empty,
    /// Variant defining memory length being less than size.
    LessThanSize,
    /// Variant defining memory length being equal to size.
    EqualToSize,
    /// Variant defining memory length being more than size.
    MoreThanSize,
}

fn rand_bytes(size: usize) -> Vec<u8> {
    (0..size).map(|_| random()).collect::<Vec<u8>>()
}

/// Builds the memory contents for a SHA3 run, mirroring how a contract
/// would populate it word by word: each 32-byte word is stored big-endian,
/// a short final chunk landing at the end of its word.
fn gen_sha3_memory(offset: usize, size: usize, mem_kind: MemoryKind) -> Vec<u8> {
    let mut rng = rand::thread_rng();
    let data_len = match mem_kind {
        MemoryKind::LessThanSize => {
            offset
                + if size.gt(&0) {
                    rng.gen_range(0..size)
                } else {
                    0
                }
        }
        MemoryKind::EqualToSize => offset + size,
        MemoryKind::MoreThanSize => {
            offset
                + size
                + if size.gt(&0) {
                    rng.gen_range(0..size)
                } else {
                    0
                }
        }
        MemoryKind::Empty => 0,
    };
    let data = rand_bytes(data_len);
    let mut memory = Vec::with_capacity(data_len);
    for mem_chunk in data.chunks(32) {
        let mem_value = if mem_chunk.len() < 32 {
            std::iter::repeat(0u8)
                .take(32 - mem_chunk.len())
                .chain(mem_chunk.to_vec())
                .collect::<Vec<u8>>()
        } else {
            mem_chunk.to_vec()
        };
        memory.extend_from_slice(&mem_value);
    }
    memory
}

fn fresh_state(memory: Vec<u8>, offset: u64, size: u64) -> State {
    let mut stack = Stack::new();
    stack.push(Word::from_u64(size)).unwrap();
    stack.push(Word::from_u64(offset)).unwrap();
    State {
        stack,
        memory: Memory::from_bytes(memory),
        call_id: 1,
        rwc: 0,
        records: Vec::new(),
        copy_events: Vec::new(),
        sha3_inputs: Vec::new(),
    }
}

fn expect_word(mem: &[u8], addr: u64) -> [u8; 32] {
    let mut b = [0u8; 32];
    for (j, slot) in b.iter_mut().enumerate() {
        let a = addr as usize + j;
        *slot = if a < mem.len() { mem[a] } else { 0 };
    }
    b
}

fn test_ok(offset: usize, size: usize, mem_kind: MemoryKind) {
    let memory = gen_sha3_memory(offset, size, mem_kind);

    // The memory that is hashed.
    let mut memory_view = memory
        .iter()
        .copied()
        .skip(offset)
        .take(size)
        .collect::<Vec<u8>>();
    memory_view.resize(size, 0);
    let expected_sha3_value = keccak256(&memory_view);

    let mut state = fresh_state(memory.clone(), offset as u64, size as u64);
    let step = Sha3::gen_associated_ops(&mut state, None).unwrap();

    // stack read and write.
    let offset_word = Word::from_u64(offset as u64);
    let size_word = Word::from_u64(size as u64);
    let stack_ops = [0, 1, 2].map(|idx| {
        let rec = state.records[step.bus_mapping_instance[idx] as usize];
        (rec.kind, rec.direction, rec.target, rec.value.bytes)
    });
    assert_eq!(
        stack_ops,
        [
            (RecordKind::Stack, Direction::Read, 1022, offset_word.bytes),
            (RecordKind::Stack, Direction::Read, 1023, size_word.bytes),
            (RecordKind::Stack, Direction::Write, 1023, expected_sha3_value),
        ]
    );

    // One memory read per word of the aligned range, ascending.
    let dst_range = align(ByteWindow {
        start: offset as u64,
        length: size as u64,
    });
    let memory_ops = state.records[3..]
        .iter()
        .map(|rec| (rec.kind, rec.direction, rec.target, rec.value.bytes))
        .collect::<Vec<_>>();
    assert_eq!(memory_ops, {
        let mut expected = Vec::with_capacity(size);
        let mut chunk_index = dst_range.start_slot;
        for _ in 0..dst_range.word_count {
            let word = expect_word(&memory, chunk_index);
            expected.push((RecordKind::Memory, Direction::Read, chunk_index, word));
            chunk_index += 32;
        }
        expected
    });

    let copy_events = &state.copy_events;

    // single copy event whose non-masked bytes are the hashed input.
    assert_eq!(copy_events.len(), 1);

    let mut mask_count = 0;
    for (idx, payload_byte) in copy_events[0].payload.iter().enumerate() {
        if !payload_byte.is_mask {
            assert_eq!(Some(&payload_byte.value), memory_view.get(idx - mask_count));
            assert!(!payload_byte.is_code);
        } else {
            mask_count += 1;
        }
    }
}

#[test]
fn sha3_opcode_ok() {
    test_ok(0x10, 0x32, MemoryKind::Empty);
    test_ok(0x34, 0x44, MemoryKind::LessThanSize);
    test_ok(0x222, 0x111, MemoryKind::EqualToSize);
    test_ok(0x20, 0x30, MemoryKind::MoreThanSize);
}

#[test]
fn align_scenarios() {
    // (0x10, 0x32) covers [0, 0x60): ceil(0x42/32) - floor(0x10/32) words.
    let r = align(ByteWindow { start: 0x10, length: 0x32 });
    assert_eq!(r.start_slot, 0);
    assert_eq!(r.word_count, 3);

    let r = align(ByteWindow { start: 0x222, length: 0x111 });
    assert_eq!(r.start_slot, 0x220);
    assert_eq!(r.word_count, 9);

    // Aligned window that ends on a word boundary takes exactly its words.
    let r = align(ByteWindow { start: 0x20, length: 0x40 });
    assert_eq!(r.start_slot, 0x20);
    assert_eq!(r.word_count, 2);

    // Empty window: empty range.
    let r = align(ByteWindow { start: 0x10, length: 0 });
    assert_eq!(r.word_count, 0);
}

#[test]
fn align_saturates_near_max_address() {
    // The end address clamps to the largest representable address instead
    // of wrapping.
    let window = ByteWindow {
        start: u64::MAX - 16,
        length: u64::MAX,
    };
    assert_eq!(window.end(), u64::MAX);
    let r = align(window);
    assert_eq!(r.start_slot, u64::MAX - 31);
    assert_eq!(r.word_count, 1);
}

#[test]
fn handler_saturates_near_max_address() {
    let mut state = fresh_state(Vec::new(), u64::MAX - 16, u64::MAX);
    let step = Sha3::gen_associated_ops(&mut state, None).unwrap();
    // The clamped window holds 16 bytes, all reading zero.
    assert_eq!(state.sha3_inputs[0], vec![0u8; 16]);
    assert_eq!(state.records[2].value.bytes, keccak256(vec![0u8; 16]));
    assert_eq!(state.records.len(), 4);
    assert_eq!(step.bus_mapping_instance, vec![0, 1, 2, 3]);
    let ev = &state.copy_events[0];
    assert_eq!(ev.src_addr, u64::MAX - 16);
    assert_eq!(ev.src_addr_end, u64::MAX);
    assert_eq!(ev.payload.len(), 32);
}

#[test]
fn zero_length_emits_one_empty_event() {
    let mut state = fresh_state(vec![7u8; 64], 0, 0);
    let size_before = state.memory.size();
    let step = Sha3::gen_associated_ops(&mut state, None).unwrap();
    // Exactly one copy event with an empty payload, no memory-read records,
    // and no memory growth.
    assert_eq!(state.copy_events.len(), 1);
    assert_eq!(state.copy_events[0].payload.len(), 0);
    assert_eq!(state.records.len(), 3);
    assert_eq!(state.memory.size(), size_before);
    assert_eq!(step.bus_mapping_instance, vec![0, 1, 2]);
    // The digest is the hash of the empty input: the well-known Keccak-256
    // digest of the empty string.
    let empty_digest: [u8; 32] = [
        0xc5, 0xd2, 0x46, 0x01, 0x86, 0xf7, 0x23, 0x3c, 0x92, 0x7e, 0x7d, 0xb2, 0xdc, 0xc7, 0x03,
        0xc0, 0xe5, 0x00, 0xb6, 0x53, 0xca, 0x82, 0x27, 0x3b, 0x7b, 0xfa, 0xd8, 0x04, 0x5d, 0x85,
        0xa4, 0x70,
    ];
    assert_eq!(state.records[2].value.bytes, empty_digest);
    assert_eq!(state.sha3_inputs[0], Vec::<u8>::new());
}

#[test]
fn memory_growth_policy() {
    // Over empty memory, a non-empty window extends the live bound to its
    // end.
    let mut state = fresh_state(Vec::new(), 0x10, 0x32);
    Sha3::gen_associated_ops(&mut state, None).unwrap();
    assert_eq!(state.memory.size(), 0x42);
    // digest computed over zero bytes.
    assert_eq!(state.records[2].value.bytes, keccak256(vec![0u8; 0x32]));

    // Memory exactly covering the window is not extended.
    let mut state = fresh_state(vec![3u8; 0x333], 0x222, 0x111);
    Sha3::gen_associated_ops(&mut state, None).unwrap();
    assert_eq!(state.memory.size(), 0x333);
}

#[test]
fn copy_event_metadata() {
    let mut state = fresh_state(vec![9u8; 0x60], 0x10, 0x32);
    state.call_id = 77;
    state.rwc = 100;
    let step = Sha3::gen_associated_ops(&mut state, None).unwrap();
    let ev = &state.copy_events[0];
    assert_eq!(ev.src_addr, 0x10);
    assert_eq!(ev.src_addr_end, 0x42);
    assert_eq!(ev.src_type, CopyDataType::Memory);
    assert_eq!(ev.src_id, 77);
    assert_eq!(ev.dst_addr, 0);
    assert_eq!(ev.dst_type, CopyDataType::RlcAcc);
    assert_eq!(ev.dst_id, 77);
    // The event's record range starts after the three stack records.
    assert_eq!(ev.rw_counter_start, 103);
    assert_eq!(ev.payload.len(), 3 * 32);
    // Leading and trailing alignment padding is masked, the window is not.
    for (i, payload_byte) in ev.payload.iter().enumerate() {
        let addr = i as u64;
        let expected_mask = !(0x10..0x42).contains(&addr);
        assert_eq!(payload_byte.is_mask, expected_mask);
        assert_eq!(payload_byte.value, 9);
    }
    assert_eq!(step.bus_mapping_instance, vec![100, 101, 102, 103, 104, 105]);
    // Sequence numbers are strictly increasing across the whole operation.
    for pair in state.records.windows(2) {
        assert!(pair[0].sequence < pair[1].sequence);
    }
}

#[test]
fn stack_underflow_leaves_state_unchanged() {
    let mut stack = Stack::new();
    stack.push(Word::from_u64(5)).unwrap();
    let mut state = State {
        stack,
        memory: Memory::from_bytes(vec![1, 2, 3]),
        call_id: 1,
        rwc: 9,
        records: Vec::new(),
        copy_events: Vec::new(),
        sha3_inputs: Vec::new(),
    };
    assert!(matches!(
        Sha3::gen_associated_ops(&mut state, None),
        Err(Error::StackUnderflow)
    ));
    assert_eq!(state.stack.len(), 1);
    assert_eq!(state.rwc, 9);
    assert_eq!(state.records.len(), 0);
    assert_eq!(state.copy_events.len(), 0);
}

#[test]
fn stack_capacity_errors() {
    let mut stack = Stack::new();
    for i in 0..1024 {
        stack.push(Word::from_u64(i)).unwrap();
    }
    assert_eq!(stack.push(Word::from_u64(0)), Err(Error::StackOverflow));
    let mut empty = Stack::new();
    assert_eq!(empty.pop(), Err(Error::StackUnderflow));
}

#[test]
fn word_round_trips() {
    for v in [0u64, 1, 255, 256, 0x1234_5678_9abc_def0, u64::MAX] {
        let w = Word::from_u64(v);
        assert_eq!(w.low_u64(), v);
        // 24 zero bytes, then the big-endian bytes of the value.
        assert_eq!(&w.bytes[..24], &[0u8; 24]);
        assert_eq!(&w.bytes[24..], &v.to_be_bytes());
    }
    let digest = keccak256(b"abc").to_vec();
    let w = Word::from_big_endian(&digest);
    assert_eq!(w.bytes.to_vec(), digest);
}

#[test]
fn hashed_input_is_exact_window() {
    // The hash covers exactly the requested window, not the aligned range.
    let memory: Vec<u8> = (0u8..=255).chain(0u8..=255).collect();
    let mut state = fresh_state(memory.clone(), 0x15, 0x21);
    Sha3::gen_associated_ops(&mut state, None).unwrap();
    let window: Vec<u8> = memory[0x15..0x36].to_vec();
    assert_eq!(state.sha3_inputs[0], window);
    assert_eq!(state.records[2].value.bytes, keccak256(&window));
}

#[test]
fn oracle_agreement_succeeds() {
    let memory = vec![5u8; 0x60];
    let window: Vec<u8> = memory[0x10..0x42].to_vec();
    let oracle = OracleStep {
        offset: Word::from_u64(0x10),
        size: Word::from_u64(0x32),
        digest: Word::from_big_endian(&keccak256(&window).to_vec()),
    };
    let mut state = fresh_state(memory, 0x10, 0x32);
    let step = Sha3::gen_associated_ops(&mut state, Some(&oracle)).unwrap();
    assert_eq!(step.bus_mapping_instance.len(), 6);
    assert_eq!(state.copy_events.len(), 1);
}

#[test]
fn oracle_disagreement_is_fatal() {
    // A wrong operand is caught before any hashing.
    let oracle = OracleStep {
        offset: Word::from_u64(0x11),
        size: Word::from_u64(0x32),
        digest: Word::from_u64(0),
    };
    let mut state = fresh_state(vec![5u8; 0x60], 0x10, 0x32);
    assert!(matches!(
        Sha3::gen_associated_ops(&mut state, Some(&oracle)),
        Err(Error::ConsistencyMismatch)
    ));

    // A wrong digest is caught before the push.
    let oracle = OracleStep {
        offset: Word::from_u64(0x10),
        size: Word::from_u64(0x32),
        digest: Word::from_u64(0xdead),
    };
    let mut state = fresh_state(vec![5u8; 0x60], 0x10, 0x32);
    assert!(matches!(
        Sha3::gen_associated_ops(&mut state, Some(&oracle)),
        Err(Error::ConsistencyMismatch)
    ));
    // No digest was pushed; the block is to be discarded.
    assert_eq!(state.stack.len(), 0);
}
