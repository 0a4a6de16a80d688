//! The task kinds and their type-tag registry.
//!
//! Every task kind carries a distinct, stable numeric tag.  A task frame is
//! the tag followed by the task's encoded state; the registry is a closed,
//! exhaustive mapping, so an unknown tag means a corrupted or cross-version
//! checkpoint and is a fatal error, never a guess.

pub mod get_hash;
pub mod hash_many;
pub mod probe;
pub mod stark_commit;
pub mod stark_verify;
pub mod validate_public_input;
pub mod verify;
pub mod verify_public_input;

use vstd::prelude::*;
use crate::errors::EngineError;
use crate::felt::{
    be_bytes8, be_value, lemma_be_bytes8_value, read_be_at, u64_to_bytes_be, Felt, FIELD_MODULUS,
};
use crate::stack::{region_cost, Stack};
use crate::stark_proof::ProofModel;
use crate::tasks::get_hash::{
    get_hash_step_byte, get_hash_step_from_byte, get_hash_step_of_byte, get_hash_step_to_byte,
    GetHash, GetHashStep,
};
use crate::tasks::hash_many::{HashMany, HashManyStep};
use crate::tasks::probe::{
    probe_step_byte, probe_step_from_byte, probe_step_of_byte, probe_step_to_byte, Probe, ProbeStep,
};
use crate::tasks::stark_commit::{
    commit_step_byte, commit_step_from_byte, commit_step_of_byte, commit_step_to_byte, StarkCommit,
    StarkCommitStep,
};
use crate::tasks::stark_verify::{
    stark_verify_step_byte, stark_verify_step_from_byte, stark_verify_step_of_byte,
    stark_verify_step_to_byte, StarkVerify, StarkVerifyStep,
};
use crate::tasks::validate_public_input::{
    validate_step_byte, validate_step_from_byte, validate_step_of_byte, validate_step_to_byte,
    ValidatePublicInput, ValidatePublicInputStep,
};
use crate::tasks::verify::{
    verify_step_byte, verify_step_from_byte, verify_step_of_byte, verify_step_to_byte, Verify,
    VerifyStep,
};
use crate::tasks::verify_public_input::{
    verify_pi_step_byte, verify_pi_step_from_byte, verify_pi_step_of_byte, verify_pi_step_to_byte,
    VerifyPublicInput, VerifyPublicInputStep,
};

verus! {

pub const TAG_VERIFY: u8 = 1;

pub const TAG_VALIDATE_PUBLIC_INPUT: u8 = 2;

pub const TAG_GET_HASH: u8 = 3;

pub const TAG_STARK_COMMIT: u8 = 4;

pub const TAG_STARK_VERIFY: u8 = 5;

pub const TAG_VERIFY_PUBLIC_INPUT: u8 = 6;

pub const TAG_HASH_MANY: u8 = 7;

pub const TAG_PROBE: u8 = 8;

/// The closed union of every task kind the engine can run.
#[derive(Clone, Copy, Debug, PartialEq, Eq, Structural)]
pub enum Task {
    Verify(Verify),
    ValidatePublicInput(ValidatePublicInput),
    GetHash(GetHash),
    StarkCommit(StarkCommit),
    StarkVerify(StarkVerify),
    VerifyPublicInput(VerifyPublicInput),
    HashMany(HashMany),
    Probe(Probe),
}

/// What one tick of a task does: either it fails with an error, or it yields
/// the updated task, the children it spawned (in spawn order) and the new
/// data region.
pub ghost struct StepSpec {
    pub fail: Option<EngineError>,
    pub task: Task,
    pub children: Seq<Task>,
    pub data: Seq<Seq<u8>>,
}

pub open spec fn step_go(task: Task, children: Seq<Task>, data: Seq<Seq<u8>>) -> StepSpec {
    StepSpec { fail: None, task, children, data }
}

pub open spec fn step_fail(e: EngineError, task: Task, data: Seq<Seq<u8>>) -> StepSpec {
    StepSpec { fail: Some(e), task, children: Seq::empty(), data }
}

/// The field elements a task's frame carries are canonical.
pub open spec fn task_wf(t: Task) -> bool {
    match t {
        Task::Verify(_) => true,
        Task::ValidatePublicInput(_) => true,
        Task::GetHash(x) => x.main_page_hash.wf(),
        Task::StarkCommit(x) => x.seed.wf(),
        Task::StarkVerify(x) => x.challenge.wf(),
        Task::VerifyPublicInput(x) => x.observed.wf(),
        Task::HashMany(x) => x.wf(),
        Task::Probe(_) => true,
    }
}

pub open spec fn task_finished(t: Task) -> bool {
    match t {
        Task::Verify(x) => x.step == VerifyStep::Done,
        Task::ValidatePublicInput(x) => x.step == ValidatePublicInputStep::Done,
        Task::GetHash(x) => x.step == GetHashStep::Done,
        Task::StarkCommit(x) => x.step == StarkCommitStep::Done,
        Task::StarkVerify(x) => x.step == StarkVerifyStep::Done,
        Task::VerifyPublicInput(x) => x.step == VerifyPublicInputStep::Done,
        Task::HashMany(x) => x.step == HashManyStep::Done,
        Task::Probe(x) => x.step == ProbeStep::Done,
    }
}

/// What one tick of any task does, by kind.
pub open spec fn task_step_spec(t: Task, data: Seq<Seq<u8>>, p: ProofModel) -> StepSpec {
    match t {
        Task::Verify(x) => x.step_spec(data),
        Task::ValidatePublicInput(x) => x.step_spec(data, p),
        Task::GetHash(x) => x.step_spec(data, p),
        Task::StarkCommit(x) => x.step_spec(data, p),
        Task::StarkVerify(x) => x.step_spec(data, p),
        Task::VerifyPublicInput(x) => x.step_spec(data, p),
        Task::HashMany(x) => x.step_spec(data),
        Task::Probe(x) => x.step_spec(data),
    }
}

/// The frames of a spawned child list, in spawn order.
pub open spec fn children_frames(ts: Seq<Task>) -> Seq<Seq<u8>> {
    ts.map_values(|c: Task| task_frame(c))
}

/// A task's own designed step failures are the empty-region contract
/// violation or a verification failure; the other error kinds arise only in
/// the registry and the stack.
pub proof fn lemma_step_fail_kind(t: Task, data: Seq<Seq<u8>>, p: ProofModel)
    ensures
        match task_step_spec(t, data, p).fail {
            Some(e) => e == EngineError::Empty || e is VerificationFailed,
            None => true,
        },
{
}

/// The frame a task is persisted as: its tag, its step, then its fields in
/// fixed-width big-endian form.
pub open spec fn task_frame(t: Task) -> Seq<u8> {
    match t {
        Task::Verify(x) => seq![TAG_VERIFY, verify_step_byte(x.step)],
        Task::ValidatePublicInput(x) => seq![
            TAG_VALIDATE_PUBLIC_INPUT,
            validate_step_byte(x.step),
        ],
        Task::GetHash(x) => seq![TAG_GET_HASH, get_hash_step_byte(x.step)] + be_bytes8(
            x.main_page_hash.v,
        ),
        Task::StarkCommit(x) => seq![TAG_STARK_COMMIT, commit_step_byte(x.step)] + be_bytes8(
            x.seed.v,
        ),
        Task::StarkVerify(x) => seq![TAG_STARK_VERIFY, stark_verify_step_byte(x.step)] + be_bytes8(
            x.challenge.v,
        ),
        Task::VerifyPublicInput(x) => seq![
            TAG_VERIFY_PUBLIC_INPUT,
            verify_pi_step_byte(x.step),
        ] + be_bytes8(x.observed.v),
        Task::HashMany(x) => seq![TAG_HASH_MANY, hash_many_step_byte(x.step)] + be_bytes8(
            x.input_len,
        ) + be_bytes8(x.remaining) + be_bytes8(x.s0.v) + be_bytes8(x.s1.v) + be_bytes8(x.s2.v),
        Task::Probe(x) => seq![TAG_PROBE, probe_step_byte(x.step), x.label, x.left, x.right],
    }
}

pub open spec fn hash_many_step_byte(s: HashManyStep) -> u8 {
    match s {
        HashManyStep::Init => 0,
        HashManyStep::Absorb => 1,
        HashManyStep::Squeeze => 2,
        HashManyStep::Done => 3,
    }
}

pub open spec fn hash_many_step_of_byte(b: u8) -> Option<HashManyStep> {
    if b == 0 {
        Some(HashManyStep::Init)
    } else if b == 1 {
        Some(HashManyStep::Absorb)
    } else if b == 2 {
        Some(HashManyStep::Squeeze)
    } else if b == 3 {
        Some(HashManyStep::Done)
    } else {
        None
    }
}

fn hash_many_step_to_byte(s: HashManyStep) -> (b: u8)
    ensures
        b == hash_many_step_byte(s),
{
    match s {
        HashManyStep::Init => 0,
        HashManyStep::Absorb => 1,
        HashManyStep::Squeeze => 2,
        HashManyStep::Done => 3,
    }
}

fn hash_many_step_from_byte(b: u8) -> (r: Option<HashManyStep>)
    ensures
        r == hash_many_step_of_byte(b),
{
    if b == 0 {
        Some(HashManyStep::Init)
    } else if b == 1 {
        Some(HashManyStep::Absorb)
    } else if b == 2 {
        Some(HashManyStep::Squeeze)
    } else if b == 3 {
        Some(HashManyStep::Done)
    } else {
        None
    }
}

/// The decoder of the registry: a frame reconstructs a task exactly when its
/// tag is registered, its length fits that kind, its step byte is a state of
/// that kind, and every field element in it is canonical.
pub open spec fn decode_frame_spec(b: Seq<u8>) -> Option<Task> {
    if b.len() < 2 {
        None
    } else if b[0] == TAG_VERIFY {
        if b.len() == 2 {
            match verify_step_of_byte(b[1]) {
                Some(s) => Some(Task::Verify(Verify { step: s })),
                None => None,
            }
        } else {
            None
        }
    } else if b[0] == TAG_VALIDATE_PUBLIC_INPUT {
        if b.len() == 2 {
            match validate_step_of_byte(b[1]) {
                Some(s) => Some(Task::ValidatePublicInput(ValidatePublicInput { step: s })),
                None => None,
            }
        } else {
            None
        }
    } else if b[0] == TAG_GET_HASH {
        if b.len() == 10 && be_value(b.subrange(2, 10)) < FIELD_MODULUS {
            match get_hash_step_of_byte(b[1]) {
                Some(s) => Some(
                    Task::GetHash(
                        GetHash {
                            step: s,
                            main_page_hash: Felt { v: be_value(b.subrange(2, 10)) as u64 },
                        },
                    ),
                ),
                None => None,
            }
        } else {
            None
        }
    } else if b[0] == TAG_STARK_COMMIT {
        if b.len() == 10 && be_value(b.subrange(2, 10)) < FIELD_MODULUS {
            match commit_step_of_byte(b[1]) {
                Some(s) => Some(
                    Task::StarkCommit(
                        StarkCommit { step: s, seed: Felt { v: be_value(b.subrange(2, 10)) as u64 } },
                    ),
                ),
                None => None,
            }
        } else {
            None
        }
    } else if b[0] == TAG_STARK_VERIFY {
        if b.len() == 10 && be_value(b.subrange(2, 10)) < FIELD_MODULUS {
            match stark_verify_step_of_byte(b[1]) {
                Some(s) => Some(
                    Task::StarkVerify(
                        StarkVerify {
                            step: s,
                            challenge: Felt { v: be_value(b.subrange(2, 10)) as u64 },
                        },
                    ),
                ),
                None => None,
            }
        } else {
            None
        }
    } else if b[0] == TAG_VERIFY_PUBLIC_INPUT {
        if b.len() == 10 && be_value(b.subrange(2, 10)) < FIELD_MODULUS {
            match verify_pi_step_of_byte(b[1]) {
                Some(s) => Some(
                    Task::VerifyPublicInput(
                        VerifyPublicInput {
                            step: s,
                            observed: Felt { v: be_value(b.subrange(2, 10)) as u64 },
                        },
                    ),
                ),
                None => None,
            }
        } else {
            None
        }
    } else if b[0] == TAG_HASH_MANY {
        if b.len() == 42 && be_value(b.subrange(18, 26)) < FIELD_MODULUS && be_value(
            b.subrange(26, 34),
        ) < FIELD_MODULUS && be_value(b.subrange(34, 42)) < FIELD_MODULUS {
            match hash_many_step_of_byte(b[1]) {
                Some(s) => Some(
                    Task::HashMany(
                        HashMany {
                            step: s,
                            input_len: be_value(b.subrange(2, 10)) as u64,
                            remaining: be_value(b.subrange(10, 18)) as u64,
                            s0: Felt { v: be_value(b.subrange(18, 26)) as u64 },
                            s1: Felt { v: be_value(b.subrange(26, 34)) as u64 },
                            s2: Felt { v: be_value(b.subrange(34, 42)) as u64 },
                        },
                    ),
                ),
                None => None,
            }
        } else {
            None
        }
    } else if b[0] == TAG_PROBE {
        if b.len() == 5 {
            match probe_step_of_byte(b[1]) {
                Some(s) => Some(
                    Task::Probe(Probe { step: s, label: b[2], left: b[3], right: b[4] }),
                ),
                None => None,
            }
        } else {
            None
        }
    } else {
        None
    }
}

/// Serializes a task for the task region.
pub fn encode_task(t: &Task) -> (out: Vec<u8>)
    ensures
        out@ == task_frame(*t),
{
    let mut out: Vec<u8> = Vec::new();
    match t {
        Task::Verify(x) => {
            out.push(TAG_VERIFY);
            out.push(verify_step_to_byte(x.step));
            proof {
                assert(out@ =~= task_frame(*t));
            }
        },
        Task::ValidatePublicInput(x) => {
            out.push(TAG_VALIDATE_PUBLIC_INPUT);
            out.push(validate_step_to_byte(x.step));
            proof {
                assert(out@ =~= task_frame(*t));
            }
        },
        Task::GetHash(x) => {
            out.push(TAG_GET_HASH);
            out.push(get_hash_step_to_byte(x.step));
            let mut b = x.main_page_hash.to_bytes_be();
            out.append(&mut b);
            proof {
                assert(out@ =~= task_frame(*t));
            }
        },
        Task::StarkCommit(x) => {
            out.push(TAG_STARK_COMMIT);
            out.push(commit_step_to_byte(x.step));
            let mut b = x.seed.to_bytes_be();
            out.append(&mut b);
            proof {
                assert(out@ =~= task_frame(*t));
            }
        },
        Task::StarkVerify(x) => {
            out.push(TAG_STARK_VERIFY);
            out.push(stark_verify_step_to_byte(x.step));
            let mut b = x.challenge.to_bytes_be();
            out.append(&mut b);
            proof {
                assert(out@ =~= task_frame(*t));
            }
        },
        Task::VerifyPublicInput(x) => {
            out.push(TAG_VERIFY_PUBLIC_INPUT);
            out.push(verify_pi_step_to_byte(x.step));
            let mut b = x.observed.to_bytes_be();
            out.append(&mut b);
            proof {
                assert(out@ =~= task_frame(*t));
            }
        },
        Task::HashMany(x) => {
            out.push(TAG_HASH_MANY);
            out.push(hash_many_step_to_byte(x.step));
            let mut b = u64_to_bytes_be(x.input_len);
            out.append(&mut b);
            let mut b = u64_to_bytes_be(x.remaining);
            out.append(&mut b);
            let mut b = x.s0.to_bytes_be();
            out.append(&mut b);
            let mut b = x.s1.to_bytes_be();
            out.append(&mut b);
            let mut b = x.s2.to_bytes_be();
            out.append(&mut b);
            proof {
                assert(out@ =~= task_frame(*t));
            }
        },
        Task::Probe(x) => {
            out.push(TAG_PROBE);
            out.push(probe_step_to_byte(x.step));
            out.push(x.label);
            out.push(x.left);
            out.push(x.right);
            proof {
                assert(out@ =~= task_frame(*t));
            }
        },
    }
    out
}

/// Reconstructs a task from a frame; `None` is the unknown-tag outcome.
pub fn decode_task(frame: &Vec<u8>) -> (r: Option<Task>)
    ensures
        r == decode_frame_spec(frame@),
{
    if frame.len() < 2 {
        return None;
    }
    let tag = frame[0];
    let sb = frame[1];
    if tag == TAG_VERIFY {
        if frame.len() != 2 {
            return None;
        }
        match verify_step_from_byte(sb) {
            Some(s) => Some(Task::Verify(Verify { step: s })),
            None => None,
        }
    } else if tag == TAG_VALIDATE_PUBLIC_INPUT {
        if frame.len() != 2 {
            return None;
        }
        match validate_step_from_byte(sb) {
            Some(s) => Some(Task::ValidatePublicInput(ValidatePublicInput { step: s })),
            None => None,
        }
    } else if tag == TAG_GET_HASH {
        if frame.len() != 10 {
            return None;
        }
        let v = read_be_at(frame, 2, 8);
        if v >= FIELD_MODULUS {
            return None;
        }
        match get_hash_step_from_byte(sb) {
            Some(s) => Some(Task::GetHash(GetHash { step: s, main_page_hash: Felt { v } })),
            None => None,
        }
    } else if tag == TAG_STARK_COMMIT {
        if frame.len() != 10 {
            return None;
        }
        let v = read_be_at(frame, 2, 8);
        if v >= FIELD_MODULUS {
            return None;
        }
        match commit_step_from_byte(sb) {
            Some(s) => Some(Task::StarkCommit(StarkCommit { step: s, seed: Felt { v } })),
            None => None,
        }
    } else if tag == TAG_STARK_VERIFY {
        if frame.len() != 10 {
            return None;
        }
        let v = read_be_at(frame, 2, 8);
        if v >= FIELD_MODULUS {
            return None;
        }
        match stark_verify_step_from_byte(sb) {
            Some(s) => Some(Task::StarkVerify(StarkVerify { step: s, challenge: Felt { v } })),
            None => None,
        }
    } else if tag == TAG_VERIFY_PUBLIC_INPUT {
        if frame.len() != 10 {
            return None;
        }
        let v = read_be_at(frame, 2, 8);
        if v >= FIELD_MODULUS {
            return None;
        }
        match verify_pi_step_from_byte(sb) {
            Some(s) => Some(
                Task::VerifyPublicInput(VerifyPublicInput { step: s, observed: Felt { v } }),
            ),
            None => None,
        }
    } else if tag == TAG_HASH_MANY {
        if frame.len() != 42 {
            return None;
        }
        let input_len = read_be_at(frame, 2, 8);
        let remaining = read_be_at(frame, 10, 8);
        let v0 = read_be_at(frame, 18, 8);
        let v1 = read_be_at(frame, 26, 8);
        let v2 = read_be_at(frame, 34, 8);
        if v0 >= FIELD_MODULUS || v1 >= FIELD_MODULUS || v2 >= FIELD_MODULUS {
            return None;
        }
        match hash_many_step_from_byte(sb) {
            Some(s) => Some(
                Task::HashMany(
                    HashMany {
                        step: s,
                        input_len,
                        remaining,
                        s0: Felt { v: v0 },
                        s1: Felt { v: v1 },
                        s2: Felt { v: v2 },
                    },
                ),
            ),
            None => None,
        }
    } else if tag == TAG_PROBE {
        if frame.len() != 5 {
            return None;
        }
        match probe_step_from_byte(sb) {
            Some(s) => Some(
                Task::Probe(Probe { step: s, label: frame[2], left: frame[3], right: frame[4] }),
            ),
            None => None,
        }
    } else {
        None
    }
}

/// Whatever the registry reconstructs carries canonical field elements.
pub proof fn lemma_decode_wf(b: Seq<u8>)
    ensures
        match decode_frame_spec(b) {
            Some(t) => task_wf(t),
            None => true,
        },
{
    if b.len() >= 10 {
        crate::felt::lemma_be_value_bound(b.subrange(2, 10));
    }
    if b.len() == 42 {
        crate::felt::lemma_be_value_bound(b.subrange(18, 26));
        crate::felt::lemma_be_value_bound(b.subrange(26, 34));
        crate::felt::lemma_be_value_bound(b.subrange(34, 42));
    }
}

/// The registry law: serializing a task and dispatching on its tag
/// reconstructs exactly the task that was written.
pub proof fn lemma_registry_roundtrip(t: Task)
    requires
        task_wf(t),
    ensures
        decode_frame_spec(task_frame(t)) == Some(t),
{
    let b = task_frame(t);
    match t {
        Task::Verify(x) => {
            assert(decode_frame_spec(b) == Some(t));
        },
        Task::ValidatePublicInput(x) => {
            assert(decode_frame_spec(b) == Some(t));
        },
        Task::GetHash(x) => {
            lemma_be_bytes8_value(x.main_page_hash.v);
            assert(b.subrange(2, 10) =~= be_bytes8(x.main_page_hash.v));
            assert(decode_frame_spec(b) == Some(t));
        },
        Task::StarkCommit(x) => {
            lemma_be_bytes8_value(x.seed.v);
            assert(b.subrange(2, 10) =~= be_bytes8(x.seed.v));
            assert(decode_frame_spec(b) == Some(t));
        },
        Task::StarkVerify(x) => {
            lemma_be_bytes8_value(x.challenge.v);
            assert(b.subrange(2, 10) =~= be_bytes8(x.challenge.v));
            assert(decode_frame_spec(b) == Some(t));
        },
        Task::VerifyPublicInput(x) => {
            lemma_be_bytes8_value(x.observed.v);
            assert(b.subrange(2, 10) =~= be_bytes8(x.observed.v));
            assert(decode_frame_spec(b) == Some(t));
        },
        Task::HashMany(x) => {
            lemma_be_bytes8_value(x.input_len);
            lemma_be_bytes8_value(x.remaining);
            lemma_be_bytes8_value(x.s0.v);
            lemma_be_bytes8_value(x.s1.v);
            lemma_be_bytes8_value(x.s2.v);
            assert(b.subrange(2, 10) =~= be_bytes8(x.input_len));
            assert(b.subrange(10, 18) =~= be_bytes8(x.remaining));
            assert(b.subrange(18, 26) =~= be_bytes8(x.s0.v));
            assert(b.subrange(26, 34) =~= be_bytes8(x.s1.v));
            assert(b.subrange(34, 42) =~= be_bytes8(x.s2.v));
            assert(decode_frame_spec(b) == Some(t));
        },
        Task::Probe(x) => {
            assert(decode_frame_spec(b) == Some(t));
        },
    }
}

impl Task {
    /// Advances the task by exactly one step against the stack.
    pub fn execute(&mut self, stack: &mut Stack) -> (r: Result<Vec<Vec<u8>>, EngineError>)
        requires
            old(stack).wf(),
            task_wf(*old(self)),
        ensures
            final(stack).wf(),
            final(stack).proof_model() == old(stack).proof_model(),
            final(stack).task_frames() == old(stack).task_frames(),
            final(stack).data_cap() == old(stack).data_cap(),
            final(stack).task_cap() == old(stack).task_cap(),
            ({
                let ss = task_step_spec(*old(self), old(stack).data_records(), old(stack).proof_model());
                match r {
                    Ok(children) => ss.fail is None && *final(self) == ss.task && final(stack).data_records() == ss.data && children@.map_values(|c: Vec<u8>| c@)
                        == ss.children.map_values(|tk: Task| task_frame(tk)),
Err(e) => (ss.fail == Some(e) && *final(self) == *old(self)
                        && final(stack).data_records() == old(stack).data_records()) || (e
                        == EngineError::CapacityExceeded && ss.fail is None
                        && region_cost(ss.data) > old(stack).data_cap()
                        && *final(self) == *old(self)
                        && final(stack).data_records() == old(stack).data_records()),
                }
            }),
    {
        let t = *self;
        match t {
            Task::Verify(mut x) => {
                let r = x.execute(stack);
                *self = Task::Verify(x);
                r
            },
            Task::ValidatePublicInput(mut x) => {
                let r = x.execute(stack);
                *self = Task::ValidatePublicInput(x);
                r
            },
            Task::GetHash(mut x) => {
                let r = x.execute(stack);
                *self = Task::GetHash(x);
                r
            },
            Task::StarkCommit(mut x) => {
                let r = x.execute(stack);
                *self = Task::StarkCommit(x);
                r
            },
            Task::StarkVerify(mut x) => {
                let r = x.execute(stack);
                *self = Task::StarkVerify(x);
                r
            },
            Task::VerifyPublicInput(mut x) => {
                let r = x.execute(stack);
                *self = Task::VerifyPublicInput(x);
                r
            },
            Task::HashMany(mut x) => {
                let r = x.execute(stack);
                *self = Task::HashMany(x);
                r
            },
            Task::Probe(mut x) => {
                let r = x.execute(stack);
                *self = Task::Probe(x);
                r
            },
        }
    }

    pub fn is_finished(&self) -> (r: bool)
        ensures
            r == task_finished(*self),
    {
        match self {
            Task::Verify(x) => x.is_finished(),
            Task::ValidatePublicInput(x) => x.is_finished(),
            Task::GetHash(x) => x.is_finished(),
            Task::StarkCommit(x) => x.is_finished(),
            Task::StarkVerify(x) => x.is_finished(),
            Task::VerifyPublicInput(x) => x.is_finished(),
            Task::HashMany(x) => x.is_finished(),
            Task::Probe(x) => x.is_finished(),
        }
    }
}

} // verus!
