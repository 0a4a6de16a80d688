use stark_verifier::errors::EngineError;
use stark_verifier::felt::{Felt, FELT_BYTES};
use stark_verifier::stack::Stack;
use stark_verifier::stark_proof::{Proof, PublicInput};

fn empty_proof() -> Proof {
    Proof {
        public_input: PublicInput {
            log_n_steps: Felt { v: 0 },
            range_check_min: Felt { v: 0 },
            range_check_max: Felt { v: 0 },
            layout: Felt { v: 0 },
            dynamic_params: Vec::new(),
            segments: Vec::new(),
            padding_addr: Felt { v: 0 },
            padding_value: Felt { v: 0 },
            main_page: Vec::new(),
            continuous_page_headers: Vec::new(),
        },
        commitments: Vec::new(),
        claimed_composition: Felt { v: 0 },
        declared_hash: Felt { v: 0 },
    }
}

#[test]
fn data_push_pop_roundtrip() {
    let mut st = Stack::new(empty_proof(), 4096, 4096);
    let rec = vec![1u8, 2, 3, 4];
    st.push_data(rec.clone()).unwrap();
    let back = st.pop_data().unwrap();
    assert_eq!(back, rec);
    assert_eq!(st.data_len(), 0);
}

#[test]
fn data_lifo_reverse_order() {
    let mut st = Stack::new(empty_proof(), 4096, 4096);
    let records: Vec<Vec<u8>> = (0u8..7).map(|i| vec![i, i + 1]).collect();
    for r in &records {
        st.push_data(r.clone()).unwrap();
    }
    for i in 0..records.len() {
        let got = st.pop_data().unwrap();
        assert_eq!(got, records[records.len() - 1 - i]);
    }
    assert!(matches!(st.pop_data(), Err(EngineError::Empty)));
}

#[test]
fn pop_empty_is_contract_violation() {
    let mut st = Stack::new(empty_proof(), 128, 128);
    assert!(matches!(st.pop_data(), Err(EngineError::Empty)));
    assert!(matches!(st.peek_data(), Err(EngineError::Empty)));
}

#[test]
fn data_capacity_exhaustion() {
    // every eight-byte record costs twelve bytes with its length prefix
    let mut st = Stack::new(empty_proof(), 64, 64);
    let mut pushed = 0usize;
    loop {
        match st.push_data(Felt { v: pushed as u64 }.to_bytes_be()) {
            Ok(()) => pushed += 1,
            Err(e) => {
                assert_eq!(e, EngineError::CapacityExceeded);
                break;
            },
        }
    }
    assert_eq!(pushed, 5);
    // the failed push truncated nothing
    assert_eq!(st.data_len(), 5);
    assert!(matches!(st.push_data(vec![0u8; 8]), Err(EngineError::CapacityExceeded)));
    assert_eq!(st.data_len(), 5);
}

#[test]
fn task_capacity_exhaustion() {
    let mut st = Stack::new(empty_proof(), 64, 20);
    // a two-byte frame costs six bytes; three fit in twenty, the fourth fails
    assert!(st.push_task(vec![1u8, 0]).is_ok());
    assert!(st.push_task(vec![1u8, 0]).is_ok());
    assert!(st.push_task(vec![1u8, 0]).is_ok());
    assert!(matches!(st.push_task(vec![1u8, 0]), Err(EngineError::CapacityExceeded)));
    assert_eq!(st.task_len(), 3);
}

#[test]
fn felt_byte_roundtrip() {
    let x = Felt { v: 0x0123_4567_89ab_cdef };
    let bytes = x.to_bytes_be();
    assert_eq!(bytes.len(), FELT_BYTES);
    assert_eq!(bytes, vec![0x01, 0x23, 0x45, 0x67, 0x89, 0xab, 0xcd, 0xef]);
    let back = Felt::from_bytes_be(&bytes).unwrap();
    assert_eq!(back, x);
}

#[test]
fn felt_rejects_non_canonical() {
    assert!(Felt::from_bytes_be(&[0xff; 8]).is_none());
    assert!(Felt::from_bytes_be(&[1, 2, 3]).is_none());
}

#[test]
fn felt_arithmetic() {
    let p_minus_1 = Felt { v: 0xffff_ffff_0000_0000 };
    assert_eq!(p_minus_1.add(Felt { v: 1 }).v, 0);
    let two32 = Felt { v: 1 << 32 };
    // 2^64 mod (2^64 - 2^32 + 1) == 2^32 - 1
    assert_eq!(two32.mul(two32).v, 0xffff_ffff);
    assert!(Felt { v: 3 }.lt(Felt { v: 4 }));
    assert!(Felt { v: 4 }.le(Felt { v: 4 }));
}
