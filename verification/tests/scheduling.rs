use stark_verifier::codec::{decode_checkpoint, encode_checkpoint, encode_proof, parse_proof};
use stark_verifier::felt::Felt;
use stark_verifier::scheduler::{is_done, push_root_task, run, tick};
use stark_verifier::stack::Stack;
use stark_verifier::stark_proof::{PageEntry, PageHeader, Proof, PublicInput, Segment};
use stark_verifier::tasks::get_hash::GetHash;
use stark_verifier::tasks::hash_many::HashMany;
use stark_verifier::tasks::probe::Probe;
use stark_verifier::tasks::stark_verify::StarkVerify;
use stark_verifier::tasks::verify::Verify;
use stark_verifier::tasks::{decode_task, encode_task, Task};

fn f(v: u64) -> Felt {
    Felt { v }
}

fn sample_proof() -> Proof {
    Proof {
        public_input: PublicInput {
            log_n_steps: f(3),
            range_check_min: f(0),
            range_check_max: f(65535),
            layout: f(1),
            dynamic_params: Vec::new(),
            segments: vec![Segment { begin_addr: f(0), stop_ptr: f(10) }],
            padding_addr: f(3),
            padding_value: f(0),
            main_page: vec![
                PageEntry { address: f(1), value: f(5) },
                PageEntry { address: f(2), value: f(7) },
            ],
            continuous_page_headers: vec![
                PageHeader { start_address: f(100), size: f(4), hash: f(9) },
            ],
        },
        commitments: vec![f(11), f(22)],
        claimed_composition: f(0x75bd_a802_9bf2_8ce8),
        declared_hash: f(0x9a2c_86b3_e4c2_49aa),
    }
}

#[test]
fn lifo_nesting_order() {
    // a probe that spawns two children writes markers showing the exact order:
    // parent starts, the last-spawned child runs and finishes first, then the
    // first-spawned child, and only then does the parent resume
    let mut stack = Stack::new(sample_proof(), 4096, 4096);
    push_root_task(&mut stack, &Task::Probe(Probe::new(1, 2, 3))).unwrap();
    while !is_done(&stack) {
        tick(&mut stack).unwrap();
    }
    let mut trace: Vec<Vec<u8>> = Vec::new();
    for i in 0..stack.data_len() {
        trace.push(stack.data_record_at(i).clone());
    }
    assert_eq!(
        trace,
        vec![
            vec![1u8, 0],
            vec![3u8, 0],
            vec![3u8, 1],
            vec![2u8, 0],
            vec![2u8, 1],
            vec![1u8, 1],
        ],
    );
}

#[test]
fn checkpoint_roundtrip() {
    let mut stack = Stack::new(sample_proof(), 65536, 65536);
    stack.push_data(vec![9u8, 9, 9]).unwrap();
    push_root_task(&mut stack, &Task::Verify(Verify::new())).unwrap();
    let saved = encode_checkpoint(&stack);
    let back = decode_checkpoint(&saved, 65536, 65536).unwrap();
    assert_eq!(back.data_len(), 1);
    assert_eq!(back.data_record_at(0), &vec![9u8, 9, 9]);
    assert_eq!(back.task_len(), 1);
    assert_eq!(back.task_frame_at(0), stack.task_frame_at(0));
    assert_eq!(encode_proof(back.proof_view()), encode_proof(stack.proof_view()));
    // a corrupted checkpoint is rejected, never guessed at
    let mut bad = encode_checkpoint(&stack);
    bad.pop();
    assert!(decode_checkpoint(&bad, 65536, 65536).is_err());
    let tiny = parse_proof(&Vec::new());
    assert!(tiny.is_err());
}

#[test]
fn determinism_across_checkpoints() {
    // one uninterrupted run
    let mut one_shot = Stack::new(sample_proof(), 65536, 65536);
    push_root_task(&mut one_shot, &Task::Verify(Verify::new())).unwrap();
    assert!(run(&mut one_shot, 100_000).unwrap());
    let expected = one_shot.pop_data().unwrap();

    // the same session, persisted and resumed between every single tick
    let mut stack = Stack::new(sample_proof(), 65536, 65536);
    push_root_task(&mut stack, &Task::Verify(Verify::new())).unwrap();
    let mut ticks = 0u32;
    while !is_done(&stack) {
        // persist the session and resume it from bytes before every tick
        let saved = encode_checkpoint(&stack);
        stack = decode_checkpoint(&saved, 65536, 65536).unwrap();
        tick(&mut stack).unwrap();
        ticks += 1;
        assert!(ticks < 100_000);
    }
    let got = stack.pop_data().unwrap();
    assert_eq!(got, expected);
}

#[test]
fn registry_frame_roundtrip() {
    let tasks = vec![
        Task::Verify(Verify::new()),
        Task::GetHash(GetHash::new()),
        Task::StarkVerify(StarkVerify::new()),
        Task::HashMany(HashMany::new(14)),
        Task::Probe(Probe::new(7, 8, 9)),
    ];
    for t in tasks {
        let frame = encode_task(&t);
        let back = decode_task(&frame).unwrap();
        assert_eq!(back, t);
    }
    assert!(decode_task(&vec![42u8, 0]).is_none());
    assert!(decode_task(&Vec::new()).is_none());
}
