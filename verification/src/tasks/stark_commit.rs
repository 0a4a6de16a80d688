//! The Fiat–Shamir commit phase: derives the deterministic challenge value by
//! hashing the public-input digest together with the proof's commitments, and
//! leaves the challenge on the data region.

use vstd::prelude::*;
use crate::errors::EngineError;
use crate::felt::{be_bytes8, felt_of_record, felt_of_record_spec, Felt};
use crate::stack::{lemma_region_cost_concat, lemma_stack_costs, region_cost, Stack};
use crate::stark_proof::ProofModel;
use crate::tasks::hash_many::{hash_batch_records, padded_len, push_hash_batch, HashMany, HashManyStep};
use crate::tasks::{encode_task, step_fail, step_go, task_frame, StepSpec, Task};

verus! {

#[derive(Clone, Copy, Debug, PartialEq, Eq, Structural)]
pub enum StarkCommitStep {
    Init,
    Output,
    Program,
    Done,
}

#[derive(Clone, Copy, Debug, PartialEq, Eq, Structural)]
pub struct StarkCommit {
    pub step: StarkCommitStep,
    pub seed: Felt,
}

pub open spec fn commit_step_byte(s: StarkCommitStep) -> u8 {
    match s {
        StarkCommitStep::Init => 0,
        StarkCommitStep::Output => 1,
        StarkCommitStep::Program => 2,
        StarkCommitStep::Done => 3,
    }
}

pub open spec fn commit_step_of_byte(b: u8) -> Option<StarkCommitStep> {
    if b == 0 {
        Some(StarkCommitStep::Init)
    } else if b == 1 {
        Some(StarkCommitStep::Output)
    } else if b == 2 {
        Some(StarkCommitStep::Program)
    } else if b == 3 {
        Some(StarkCommitStep::Done)
    } else {
        None
    }
}

pub fn commit_step_to_byte(s: StarkCommitStep) -> (b: u8)
    ensures
        b == commit_step_byte(s),
{
    match s {
        StarkCommitStep::Init => 0,
        StarkCommitStep::Output => 1,
        StarkCommitStep::Program => 2,
        StarkCommitStep::Done => 3,
    }
}

pub fn commit_step_from_byte(b: u8) -> (r: Option<StarkCommitStep>)
    ensures
        r == commit_step_of_byte(b),
{
    if b == 0 {
        Some(StarkCommitStep::Init)
    } else if b == 1 {
        Some(StarkCommitStep::Output)
    } else if b == 2 {
        Some(StarkCommitStep::Program)
    } else if b == 3 {
        Some(StarkCommitStep::Done)
    } else {
        None
    }
}

/// The Fiat–Shamir transcript: the public-input digest first, then every
/// commitment the proof carries, in proof order.
pub open spec fn commit_message(p: ProofModel, seed: Felt) -> Seq<Felt> {
    seq![seed] + p.commitments
}

impl StarkCommit {
    pub fn new() -> (t: StarkCommit)
        ensures
            t == (StarkCommit { step: StarkCommitStep::Init, seed: Felt { v: 0 } }),
    {
        StarkCommit { step: StarkCommitStep::Init, seed: Felt { v: 0 } }
    }

    pub open spec fn step_spec(self, data: Seq<Seq<u8>>, p: ProofModel) -> StepSpec {
        match self.step {
            StarkCommitStep::Init => if data.len() == 0 {
                step_fail(EngineError::Empty, Task::StarkCommit(self), data)
            } else {
                step_go(
                    Task::StarkCommit(
                        StarkCommit {
                            step: StarkCommitStep::Output,
                            seed: felt_of_record_spec(data.last()),
                        },
                    ),
                    Seq::empty(),
                    data,
                )
            },
            StarkCommitStep::Output => {
                let msg = commit_message(p, self.seed);
                step_go(
                    Task::StarkCommit(StarkCommit { step: StarkCommitStep::Program, ..self }),
                    seq![
                        Task::HashMany(
                            HashMany {
                                step: HashManyStep::Init,
                                input_len: padded_len(msg.len() as int) as u64,
                                remaining: 0,
                                s0: Felt { v: 0 },
                                s1: Felt { v: 0 },
                                s2: Felt { v: 0 },
                            },
                        ),
                    ],
                    data + hash_batch_records(msg),
                )
            },
            StarkCommitStep::Program => if data.len() < 3 {
                step_fail(EngineError::Empty, Task::StarkCommit(self), data)
            } else {
                let challenge = felt_of_record_spec(data.last());
                step_go(
                    Task::StarkCommit(StarkCommit { step: StarkCommitStep::Done, ..self }),
                    Seq::empty(),
                    data.subrange(0, data.len() - 3).push(be_bytes8(challenge.v)),
                )
            },
            StarkCommitStep::Done => step_go(Task::StarkCommit(self), Seq::empty(), data),
        }
    }

    pub fn execute(&mut self, stack: &mut Stack) -> (r: Result<Vec<Vec<u8>>, EngineError>)
        requires
            old(stack).wf(),
        ensures
            final(stack).wf(),
            final(stack).proof_model() == old(stack).proof_model(),
            final(stack).task_frames() == old(stack).task_frames(),
            final(stack).data_cap() == old(stack).data_cap(),
            final(stack).task_cap() == old(stack).task_cap(),
            ({
                let ss = old(self).step_spec(old(stack).data_records(), old(stack).proof_model());
                match r {
                    Ok(children) => ss.fail is None && Task::StarkCommit(*final(self)) == ss.task
                        && final(stack).data_records() == ss.data && children@.map_values(
                        |c: Vec<u8>| c@,
                    ) == ss.children.map_values(|t: Task| task_frame(t)),
                    Err(e) => (ss.fail == Some(e) && *final(self) == *old(self)
                        && final(stack).data_records() == old(stack).data_records()) || (e
                        == EngineError::CapacityExceeded && ss.fail is None
                        && region_cost(ss.data) > old(stack).data_cap()
                        && *final(self) == *old(self)
                        && final(stack).data_records() == old(stack).data_records()),
                }
            }),
    {
        let ghost ss = self.step_spec(stack.data_records(), stack.proof_model());
        match self.step {
            StarkCommitStep::Init => {
                let seed = {
                    let top = stack.peek_data()?;
                    felt_of_record(top)
                };
                self.seed = seed;
                self.step = StarkCommitStep::Output;
                proof {
                    assert(Seq::<Vec<u8>>::empty().map_values(|c: Vec<u8>| c@) =~= Seq::<
                        Task,
                    >::empty().map_values(|t: Task| task_frame(t)));
                }
                Ok(Vec::new())
            },
            StarkCommitStep::Output => {
                proof {
                    crate::stack::lemma_stack_proof_wf(*stack);
                }
                let ghost p = stack.proof_model();
                let mut msg: Vec<Felt> = Vec::new();
                msg.push(self.seed);
                let ghost head = seq![old(self).seed];
                proof {
                    assert(msg@ =~= head + p.commitments.subrange(0, 0));
                }
                let nc = stack.proof_view().commitments.len();
                let mut i: usize = 0;
                while i < nc
                    invariant
                        *stack == *old(stack),
                        old(stack).wf(),
                        p == old(stack).proof_model(),
                        head == seq![old(self).seed],
                        nc == p.commitments.len(),
                        i <= nc,
                        msg@ == head + p.commitments.subrange(0, i as int),
                    decreases nc - i,
                {
                    let c = stack.proof_view().commitments[i];
                    msg.push(c);
                    proof {
                        assert(msg@ =~= head + p.commitments.subrange(0, i + 1));
                    }
                    i = i + 1;
                }
                proof {
                    assert(p.commitments.subrange(0, nc as int) =~= p.commitments);
                    assert(msg@ =~= commit_message(p, old(self).seed));
                }
                match push_hash_batch(stack, &msg) {
                    Ok(()) => {},
                    Err(e) => {
                        proof {
                            lemma_region_cost_concat(
                                old(stack).data_records(),
                                hash_batch_records(commit_message(p, old(self).seed)),
                            );
                        }
                        return Err(e);
                    },
                }
                let ml = msg.len();
                let child_len = (ml as u64) + ((ml % 2) as u64);
                proof {
                    assert(child_len as int == padded_len(
                        commit_message(p, old(self).seed).len() as int,
                    ));
                }
                let child = HashMany::new(child_len);
                let mut children: Vec<Vec<u8>> = Vec::new();
                children.push(encode_task(&Task::HashMany(child)));
                self.step = StarkCommitStep::Program;
                proof {
                    assert(children@.map_values(|c: Vec<u8>| c@) =~= ss.children.map_values(
                        |t: Task| task_frame(t),
                    ));
                }
                Ok(children)
            },
            StarkCommitStep::Program => {
                if stack.data_len() < 3 {
                    return Err(EngineError::Empty);
                }
                let top = stack.pop_data()?;
                let _ = stack.pop_data()?;
                let _ = stack.pop_data()?;
                let challenge = felt_of_record(&top);
                proof {
                    lemma_stack_costs(*old(stack));
                    let d0 = old(stack).data_records();
                    let d1 = d0.drop_last();
                    let d2 = d1.drop_last();
                    assert(region_cost(d0) == region_cost(d1) + 4 + d0.last().len());
                    assert(region_cost(d1) == region_cost(d2) + 4 + d1.last().len());
                    assert(region_cost(d2) == region_cost(d2.drop_last()) + 4 + d2.last().len());
                    assert(stack.data_records() == d2.drop_last());
                }
                stack.push_data(challenge.to_bytes_be())?;
                self.step = StarkCommitStep::Done;
                proof {
                    assert(stack.data_records() =~= old(stack).data_records().subrange(
                        0,
                        old(stack).data_records().len() - 3,
                    ).push(be_bytes8(challenge.v)));
                    assert(Seq::<Vec<u8>>::empty().map_values(|c: Vec<u8>| c@) =~= Seq::<
                        Task,
                    >::empty().map_values(|t: Task| task_frame(t)));
                }
                Ok(Vec::new())
            },
            StarkCommitStep::Done => {
                proof {
                    assert(Seq::<Vec<u8>>::empty().map_values(|c: Vec<u8>| c@) =~= Seq::<
                        Task,
                    >::empty().map_values(|t: Task| task_frame(t)));
                }
                Ok(Vec::new())
            },
        }
    }

    pub fn is_finished(&self) -> (r: bool)
        ensures
            r == (self.step == StarkCommitStep::Done),
    {
        match self.step {
            StarkCommitStep::Done => true,
            _ => false,
        }
    }
}

} // verus!
