//! The low-degree/consistency phase: checks that the proof's claimed
//! commitments are consistent with its claimed composition value at the
//! challenge point the commit phase derived.

use vstd::prelude::*;
use crate::errors::{EngineError, VerifyFailure};
use crate::felt::{felt_of_record, felt_of_record_spec, Felt};
use crate::hash::{f_add, f_mul};
use crate::stack::Stack;
use crate::stark_proof::ProofModel;
use crate::tasks::{step_fail, step_go, task_frame, StepSpec, Task};

verus! {

#[derive(Clone, Copy, Debug, PartialEq, Eq, Structural)]
pub enum StarkVerifyStep {
    Init,
    Output,
    Program,
    Done,
}

#[derive(Clone, Copy, Debug, PartialEq, Eq, Structural)]
pub struct StarkVerify {
    pub step: StarkVerifyStep,
    pub challenge: Felt,
}

pub open spec fn stark_verify_step_byte(s: StarkVerifyStep) -> u8 {
    match s {
        StarkVerifyStep::Init => 0,
        StarkVerifyStep::Output => 1,
        StarkVerifyStep::Program => 2,
        StarkVerifyStep::Done => 3,
    }
}

pub open spec fn stark_verify_step_of_byte(b: u8) -> Option<StarkVerifyStep> {
    if b == 0 {
        Some(StarkVerifyStep::Init)
    } else if b == 1 {
        Some(StarkVerifyStep::Output)
    } else if b == 2 {
        Some(StarkVerifyStep::Program)
    } else if b == 3 {
        Some(StarkVerifyStep::Done)
    } else {
        None
    }
}

pub fn stark_verify_step_to_byte(s: StarkVerifyStep) -> (b: u8)
    ensures
        b == stark_verify_step_byte(s),
{
    match s {
        StarkVerifyStep::Init => 0,
        StarkVerifyStep::Output => 1,
        StarkVerifyStep::Program => 2,
        StarkVerifyStep::Done => 3,
    }
}

pub fn stark_verify_step_from_byte(b: u8) -> (r: Option<StarkVerifyStep>)
    ensures
        r == stark_verify_step_of_byte(b),
{
    if b == 0 {
        Some(StarkVerifyStep::Init)
    } else if b == 1 {
        Some(StarkVerifyStep::Output)
    } else if b == 2 {
        Some(StarkVerifyStep::Program)
    } else if b == 3 {
        Some(StarkVerifyStep::Done)
    } else {
        None
    }
}

/// The polynomial with the commitments as coefficients, evaluated at `x`.
pub open spec fn horner_spec(cs: Seq<Felt>, x: Felt) -> Felt
    decreases cs.len(),
{
    if cs.len() == 0 {
        Felt { v: 0 }
    } else {
        f_add(cs.first(), f_mul(x, horner_spec(cs.drop_first(), x)))
    }
}

/// Evaluates the commitment polynomial at the challenge point.
pub fn horner(cs: &Vec<Felt>, x: Felt) -> (r: Felt)
    requires
        x.wf(),
        forall|i: int| 0 <= i < cs@.len() ==> (#[trigger] cs@[i]).wf(),
    ensures
        r == horner_spec(cs@, x),
{
    let mut acc = Felt { v: 0 };
    let mut i: usize = cs.len();
    proof {
        assert(cs@.subrange(cs@.len() as int, cs@.len() as int) =~= Seq::<Felt>::empty());
    }
    while i > 0
        invariant
            i <= cs@.len(),
            x.wf(),
            acc.wf(),
            forall|k: int| 0 <= k < cs@.len() ==> (#[trigger] cs@[k]).wf(),
            acc == horner_spec(cs@.subrange(i as int, cs@.len() as int), x),
        decreases i,
    {
        i = i - 1;
        let c = cs[i];
        acc = c.add(x.mul(acc));
        proof {
            let tail = cs@.subrange(i as int, cs@.len() as int);
            assert(tail.drop_first() =~= cs@.subrange(i + 1, cs@.len() as int));
            assert(tail.first() == cs@[i as int]);
        }
    }
    proof {
        assert(cs@.subrange(0, cs@.len() as int) =~= cs@);
    }
    acc
}

impl StarkVerify {
    pub fn new() -> (t: StarkVerify)
        ensures
            t == (StarkVerify { step: StarkVerifyStep::Init, challenge: Felt { v: 0 } }),
    {
        StarkVerify { step: StarkVerifyStep::Init, challenge: Felt { v: 0 } }
    }

    pub open spec fn step_spec(self, data: Seq<Seq<u8>>, p: ProofModel) -> StepSpec {
        match self.step {
            StarkVerifyStep::Init => if data.len() == 0 {
                step_fail(EngineError::Empty, Task::StarkVerify(self), data)
            } else {
                step_go(
                    Task::StarkVerify(
                        StarkVerify {
                            step: StarkVerifyStep::Output,
                            challenge: felt_of_record_spec(data.last()),
                        },
                    ),
                    Seq::empty(),
                    data,
                )
            },
            StarkVerifyStep::Output => if horner_spec(p.commitments, self.challenge)
                != p.claimed_composition {
                step_fail(
                    EngineError::VerificationFailed(VerifyFailure::CommitmentMismatch),
                    Task::StarkVerify(self),
                    data,
                )
            } else {
                step_go(
                    Task::StarkVerify(StarkVerify { step: StarkVerifyStep::Program, ..self }),
                    Seq::empty(),
                    data,
                )
            },
            StarkVerifyStep::Program => if data.len() == 0 {
                step_fail(EngineError::Empty, Task::StarkVerify(self), data)
            } else {
                step_go(
                    Task::StarkVerify(StarkVerify { step: StarkVerifyStep::Done, ..self }),
                    Seq::empty(),
                    data.drop_last(),
                )
            },
            StarkVerifyStep::Done => step_go(Task::StarkVerify(self), Seq::empty(), data),
        }
    }

    pub fn execute(&mut self, stack: &mut Stack) -> (r: Result<Vec<Vec<u8>>, EngineError>)
        requires
            old(stack).wf(),
            old(self).challenge.wf(),
        ensures
            final(stack).wf(),
            final(self).challenge.wf(),
            final(stack).proof_model() == old(stack).proof_model(),
            final(stack).task_frames() == old(stack).task_frames(),
            final(stack).data_cap() == old(stack).data_cap(),
            final(stack).task_cap() == old(stack).task_cap(),
            ({
                let ss = old(self).step_spec(old(stack).data_records(), old(stack).proof_model());
                match r {
                    Ok(children) => ss.fail is None && Task::StarkVerify(*final(self)) == ss.task
                        && final(stack).data_records() == ss.data && children@.map_values(
                        |c: Vec<u8>| c@,
                    ) == ss.children.map_values(|t: Task| task_frame(t)),
                    Err(e) => ss.fail == Some(e) && *final(self) == *old(self) && final(stack).data_records() == old(stack).data_records(),
                }
            }),
    {
        let ghost ss = self.step_spec(stack.data_records(), stack.proof_model());
        match self.step {
            StarkVerifyStep::Init => {
                let challenge = {
                    let top = stack.peek_data()?;
                    felt_of_record(top)
                };
                self.challenge = challenge;
                self.step = StarkVerifyStep::Output;
                proof {
                    assert(Seq::<Vec<u8>>::empty().map_values(|c: Vec<u8>| c@) =~= Seq::<
                        Task,
                    >::empty().map_values(|t: Task| task_frame(t)));
                }
                Ok(Vec::new())
            },
            StarkVerifyStep::Output => {
                proof {
                    crate::stack::lemma_stack_proof_wf(*stack);
                }
                let eval = horner(&stack.proof_view().commitments, self.challenge);
                let claimed = stack.proof_view().claimed_composition;
                if eval.v != claimed.v {
                    return Err(EngineError::VerificationFailed(VerifyFailure::CommitmentMismatch));
                }
                self.step = StarkVerifyStep::Program;
                proof {
                    assert(Seq::<Vec<u8>>::empty().map_values(|c: Vec<u8>| c@) =~= Seq::<
                        Task,
                    >::empty().map_values(|t: Task| task_frame(t)));
                }
                Ok(Vec::new())
            },
            StarkVerifyStep::Program => {
                let _ = stack.pop_data()?;
                self.step = StarkVerifyStep::Done;
                proof {
                    assert(Seq::<Vec<u8>>::empty().map_values(|c: Vec<u8>| c@) =~= Seq::<
                        Task,
                    >::empty().map_values(|t: Task| task_frame(t)));
                }
                Ok(Vec::new())
            },
            StarkVerifyStep::Done => {
                proof {
                    assert(Seq::<Vec<u8>>::empty().map_values(|c: Vec<u8>| c@) =~= Seq::<
                        Task,
                    >::empty().map_values(|t: Task| task_frame(t)));
                }
                Ok(Vec::new())
            },
        }
    }

    pub fn is_finished(&self) -> (r: bool)
        ensures
            r == (self.step == StarkVerifyStep::Done),
    {
        match self.step {
            StarkVerifyStep::Done => true,
            _ => false,
        }
    }
}

} // verus!
