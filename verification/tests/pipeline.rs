use stark_verifier::errors::{EngineError, VerifyFailure};
use stark_verifier::felt::Felt;
use stark_verifier::scheduler::{ingest, is_done, push_root_task, run, tick};
use stark_verifier::stack::Stack;
use stark_verifier::stark_proof::{PageEntry, PageHeader, Proof, PublicInput, Segment};
use stark_verifier::tasks::get_hash::GetHash;
use stark_verifier::tasks::stark_commit::StarkCommit;
use stark_verifier::tasks::verify::Verify;
use stark_verifier::tasks::{decode_task, Task};

fn f(v: u64) -> Felt {
    Felt { v }
}

fn sample_proof() -> Proof {
    Proof {
        public_input: PublicInput {
            log_n_steps: f(3),
            range_check_min: f(0),
            range_check_max: f(65535),
            layout: f(1),
            dynamic_params: Vec::new(),
            segments: vec![Segment { begin_addr: f(0), stop_ptr: f(10) }],
            padding_addr: f(3),
            padding_value: f(0),
            main_page: vec![
                PageEntry { address: f(1), value: f(5) },
                PageEntry { address: f(2), value: f(7) },
            ],
            continuous_page_headers: vec![
                PageHeader { start_address: f(100), size: f(4), hash: f(9) },
            ],
        },
        commitments: vec![f(11), f(22)],
        claimed_composition: f(0x75bd_a802_9bf2_8ce8),
        declared_hash: f(0x9a2c_86b3_e4c2_49aa),
    }
}

fn sample_proof_bytes() -> Vec<u8> {
    vec![
        0, 0, 0, 2, 0, 0, 0, 1, 0, 0, 0, 1, 0, 0, 0, 0, 0, 0, 0, 2, 0, 0, 0, 0, 0, 0, 0, 1, 0, 0,
        0, 0, 0, 0, 0, 5, 0, 0, 0, 0, 0, 0, 0, 2, 0, 0, 0, 0, 0, 0, 0, 7, 0, 0, 0, 0, 0, 0, 0, 0,
        0, 0, 0, 0, 0, 0, 0, 10, 0, 0, 0, 0, 0, 0, 0, 100, 0, 0, 0, 0, 0, 0, 0, 4, 0, 0, 0, 0, 0,
        0, 0, 9, 0, 0, 0, 0, 0, 0, 0, 11, 0, 0, 0, 0, 0, 0, 0, 22, 0, 0, 0, 0, 0, 0, 0, 3, 0, 0,
        0, 0, 0, 0, 0, 0, 0, 0, 0, 0, 0, 0, 255, 255, 0, 0, 0, 0, 0, 0, 0, 1, 0, 0, 0, 0, 0, 0,
        0, 3, 0, 0, 0, 0, 0, 0, 0, 0, 117, 189, 168, 2, 155, 242, 140, 232, 154, 44, 134, 179,
        228, 194, 73, 170,
    ]
}

#[test]
fn proof_bytes_roundtrip() {
    let bytes = sample_proof_bytes();
    let p = stark_verifier::codec::parse_proof(&bytes).unwrap();
    let back = stark_verifier::codec::encode_proof(&p);
    assert_eq!(back, bytes);
}

#[test]
fn ingest_rejects_malformed() {
    assert!(matches!(ingest(&vec![1u8, 2, 3], 4096, 4096), Err(EngineError::MalformedProof)));
    let mut truncated = sample_proof_bytes();
    truncated.pop();
    assert!(matches!(ingest(&truncated, 4096, 4096), Err(EngineError::MalformedProof)));
    // a non-canonical field element is rejected at ingestion
    let mut bad = sample_proof_bytes();
    for b in bad.iter_mut().skip(28).take(8) {
        *b = 0xff;
    }
    assert!(matches!(ingest(&bad, 4096, 4096), Err(EngineError::MalformedProof)));
}

#[test]
fn get_hash() {
    let bytes = sample_proof_bytes();
    let mut stack = ingest(&bytes, 65536, 65536).unwrap();
    push_root_task(&mut stack, &Task::GetHash(GetHash::new())).unwrap();
    while !is_done(&stack) {
        tick(&mut stack).unwrap();
    }
    // the public-input hash is the top data record
    let top = stack.pop_data().unwrap();
    assert_eq!(top, vec![0x9a, 0x2c, 0x86, 0xb3, 0xe4, 0xc2, 0x49, 0xaa]);
}

#[test]
fn known_vector_full_pipeline() {
    let bytes = sample_proof_bytes();
    let mut stack = ingest(&bytes, 65536, 65536).unwrap();
    push_root_task(&mut stack, &Task::Verify(Verify::new())).unwrap();
    let done = run(&mut stack, 100_000).unwrap();
    assert!(done);
    let result = stack.pop_data().unwrap();
    assert_eq!(result, vec![0x9a, 0x2c, 0x86, 0xb3, 0xe4, 0xc2, 0x49, 0xaa]);
}

#[test]
fn mutated_entry_fails_verification() {
    let mut bytes = sample_proof_bytes();
    // flip the low byte of the first main-page entry's value
    bytes[35] ^= 1;
    let mut stack = ingest(&bytes, 65536, 65536).unwrap();
    push_root_task(&mut stack, &Task::Verify(Verify::new())).unwrap();
    let outcome = run(&mut stack, 100_000);
    assert!(matches!(outcome, Err(EngineError::VerificationFailed(_))));
}

#[test]
fn wrong_declared_hash_fails_final_check() {
    let mut p = sample_proof();
    p.declared_hash = f(12345);
    let mut stack = Stack::new(p, 65536, 65536);
    push_root_task(&mut stack, &Task::Verify(Verify::new())).unwrap();
    let outcome = run(&mut stack, 100_000);
    assert_eq!(
        outcome,
        Err(EngineError::VerificationFailed(VerifyFailure::PublicInputHashMismatch)),
    );
}

#[test]
fn wrong_composition_fails_consistency_check() {
    let mut p = sample_proof();
    p.claimed_composition = f(1);
    let mut stack = Stack::new(p, 65536, 65536);
    push_root_task(&mut stack, &Task::Verify(Verify::new())).unwrap();
    let outcome = run(&mut stack, 100_000);
    assert_eq!(outcome, Err(EngineError::VerificationFailed(VerifyFailure::CommitmentMismatch)));
}

#[test]
fn malformed_segments_rejected() {
    let mut p = sample_proof();
    p.public_input.segments = vec![Segment { begin_addr: f(10), stop_ptr: f(0) }];
    let mut stack = Stack::new(p, 65536, 65536);
    push_root_task(&mut stack, &Task::Verify(Verify::new())).unwrap();
    let outcome = run(&mut stack, 100_000);
    assert_eq!(outcome, Err(EngineError::VerificationFailed(VerifyFailure::MalformedSegments)));
}

#[test]
fn range_check_order_rejected() {
    let mut p = sample_proof();
    p.public_input.range_check_min = f(9);
    p.public_input.range_check_max = f(1);
    let mut stack = Stack::new(p, 65536, 65536);
    push_root_task(&mut stack, &Task::Verify(Verify::new())).unwrap();
    let outcome = run(&mut stack, 100_000);
    assert_eq!(outcome, Err(EngineError::VerificationFailed(VerifyFailure::RangeCheckOrder)));
}

#[test]
fn unordered_addresses_rejected() {
    let mut p = sample_proof();
    p.public_input.main_page = vec![
        PageEntry { address: f(2), value: f(5) },
        PageEntry { address: f(2), value: f(7) },
    ];
    let mut stack = Stack::new(p, 65536, 65536);
    push_root_task(&mut stack, &Task::Verify(Verify::new())).unwrap();
    let outcome = run(&mut stack, 100_000);
    assert_eq!(outcome, Err(EngineError::VerificationFailed(VerifyFailure::AddressOutOfOrder)));
}

#[test]
fn empty_page_header_rejected() {
    let mut p = sample_proof();
    p.public_input.continuous_page_headers =
        vec![PageHeader { start_address: f(100), size: f(0), hash: f(9) }];
    let mut stack = Stack::new(p, 65536, 65536);
    push_root_task(&mut stack, &Task::Verify(Verify::new())).unwrap();
    let outcome = run(&mut stack, 100_000);
    assert_eq!(outcome, Err(EngineError::VerificationFailed(VerifyFailure::EmptyPageHeader)));
}

#[test]
fn unknown_task_tag_aborts() {
    let mut stack = Stack::new(sample_proof(), 4096, 4096);
    stack.push_task(vec![99u8, 0]).unwrap();
    assert!(matches!(tick(&mut stack), Err(EngineError::UnknownTaskTag)));
}

#[test]
fn commit_phase_needs_a_seed_record() {
    // the Fiat-Shamir phase peeking an empty data region is a fatal contract violation
    let mut stack = Stack::new(sample_proof(), 4096, 4096);
    push_root_task(&mut stack, &Task::StarkCommit(StarkCommit::new())).unwrap();
    assert!(matches!(tick(&mut stack), Err(EngineError::Empty)));
}

fn first_child_input_len(main_page: Vec<PageEntry>) -> u64 {
    let mut p = sample_proof();
    p.public_input.main_page = main_page;
    let mut stack = Stack::new(p, 1 << 20, 1 << 20);
    push_root_task(&mut stack, &Task::GetHash(GetHash::new())).unwrap();
    tick(&mut stack).unwrap();  // Init
    tick(&mut stack).unwrap();  // HashData spawns the hash-many child
    let frame = stack.task_frame_at(stack.task_len() - 1).clone();
    match decode_task(&frame) {
        Some(Task::HashMany(h)) => h.input_len,
        _ => panic!("expected a hash-many child on top"),
    }
}

#[test]
fn padding_formula_lengths() {
    // first hash input length is main_page_len * 2 + 3 rounded up to even
    for (k, expected) in [(0u64, 4u64), (1, 6), (2, 8), (5, 14)] {
        let entries: Vec<PageEntry> =
            (0..k).map(|i| PageEntry { address: f(i + 1), value: f(i + 10) }).collect();
        let got = first_child_input_len(entries);
        assert_eq!(got, expected);
        assert_eq!(got % 2, 0);
    }
}
