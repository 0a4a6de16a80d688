//! The final public-input check: the hash the pipeline recomputed must equal
//! the one the proof carries; the digest stays on the data region as the
//! session's result record.

use vstd::prelude::*;
use crate::errors::{EngineError, VerifyFailure};
use crate::felt::{felt_of_record, felt_of_record_spec, Felt};
use crate::stack::Stack;
use crate::stark_proof::ProofModel;
use crate::tasks::{step_fail, step_go, task_frame, StepSpec, Task};

verus! {

#[derive(Clone, Copy, Debug, PartialEq, Eq, Structural)]
pub enum VerifyPublicInputStep {
    Init,
    Output,
    Program,
    Done,
}

#[derive(Clone, Copy, Debug, PartialEq, Eq, Structural)]
pub struct VerifyPublicInput {
    pub step: VerifyPublicInputStep,
    pub observed: Felt,
}

pub open spec fn verify_pi_step_byte(s: VerifyPublicInputStep) -> u8 {
    match s {
        VerifyPublicInputStep::Init => 0,
        VerifyPublicInputStep::Output => 1,
        VerifyPublicInputStep::Program => 2,
        VerifyPublicInputStep::Done => 3,
    }
}

pub open spec fn verify_pi_step_of_byte(b: u8) -> Option<VerifyPublicInputStep> {
    if b == 0 {
        Some(VerifyPublicInputStep::Init)
    } else if b == 1 {
        Some(VerifyPublicInputStep::Output)
    } else if b == 2 {
        Some(VerifyPublicInputStep::Program)
    } else if b == 3 {
        Some(VerifyPublicInputStep::Done)
    } else {
        None
    }
}

pub fn verify_pi_step_to_byte(s: VerifyPublicInputStep) -> (b: u8)
    ensures
        b == verify_pi_step_byte(s),
{
    match s {
        VerifyPublicInputStep::Init => 0,
        VerifyPublicInputStep::Output => 1,
        VerifyPublicInputStep::Program => 2,
        VerifyPublicInputStep::Done => 3,
    }
}

pub fn verify_pi_step_from_byte(b: u8) -> (r: Option<VerifyPublicInputStep>)
    ensures
        r == verify_pi_step_of_byte(b),
{
    if b == 0 {
        Some(VerifyPublicInputStep::Init)
    } else if b == 1 {
        Some(VerifyPublicInputStep::Output)
    } else if b == 2 {
        Some(VerifyPublicInputStep::Program)
    } else if b == 3 {
        Some(VerifyPublicInputStep::Done)
    } else {
        None
    }
}

impl VerifyPublicInput {
    pub fn new() -> (t: VerifyPublicInput)
        ensures
            t == (VerifyPublicInput { step: VerifyPublicInputStep::Init, observed: Felt { v: 0 } }),
    {
        VerifyPublicInput { step: VerifyPublicInputStep::Init, observed: Felt { v: 0 } }
    }

    pub open spec fn step_spec(self, data: Seq<Seq<u8>>, p: ProofModel) -> StepSpec {
        match self.step {
            VerifyPublicInputStep::Init => if data.len() == 0 {
                step_fail(EngineError::Empty, Task::VerifyPublicInput(self), data)
            } else {
                step_go(
                    Task::VerifyPublicInput(
                        VerifyPublicInput {
                            step: VerifyPublicInputStep::Output,
                            observed: felt_of_record_spec(data.last()),
                        },
                    ),
                    Seq::empty(),
                    data,
                )
            },
            VerifyPublicInputStep::Output => if self.observed != p.declared_hash {
                step_fail(
                    EngineError::VerificationFailed(VerifyFailure::PublicInputHashMismatch),
                    Task::VerifyPublicInput(self),
                    data,
                )
            } else {
                step_go(
                    Task::VerifyPublicInput(
                        VerifyPublicInput { step: VerifyPublicInputStep::Program, ..self },
                    ),
                    Seq::empty(),
                    data,
                )
            },
            VerifyPublicInputStep::Program => step_go(
                Task::VerifyPublicInput(
                    VerifyPublicInput { step: VerifyPublicInputStep::Done, ..self },
                ),
                Seq::empty(),
                data,
            ),
            VerifyPublicInputStep::Done => step_go(
                Task::VerifyPublicInput(self),
                Seq::empty(),
                data,
            ),
        }
    }

    pub fn execute(&mut self, stack: &mut Stack) -> (r: Result<Vec<Vec<u8>>, EngineError>)
        requires
            old(stack).wf(),
        ensures
            final(stack).wf(),
            final(stack).proof_model() == old(stack).proof_model(),
            final(stack).task_frames() == old(stack).task_frames(),
            final(stack).data_records() == old(stack).data_records(),
            final(stack).data_cap() == old(stack).data_cap(),
            final(stack).task_cap() == old(stack).task_cap(),
            ({
                let ss = old(self).step_spec(old(stack).data_records(), old(stack).proof_model());
                match r {
                    Ok(children) => ss.fail is None && Task::VerifyPublicInput(*final(self))
                        == ss.task && final(stack).data_records() == ss.data
                        && children@.map_values(|c: Vec<u8>| c@) == ss.children.map_values(
                        |t: Task| task_frame(t),
                    ),
                    Err(e) => ss.fail == Some(e) && *final(self) == *old(self),
                }
            }),
    {
        let ghost ss = self.step_spec(stack.data_records(), stack.proof_model());
        match self.step {
            VerifyPublicInputStep::Init => {
                let observed = {
                    let top = stack.peek_data()?;
                    felt_of_record(top)
                };
                self.observed = observed;
                self.step = VerifyPublicInputStep::Output;
                proof {
                    assert(Seq::<Vec<u8>>::empty().map_values(|c: Vec<u8>| c@) =~= Seq::<
                        Task,
                    >::empty().map_values(|t: Task| task_frame(t)));
                }
                Ok(Vec::new())
            },
            VerifyPublicInputStep::Output => {
                let declared = stack.proof_view().declared_hash;
                if self.observed.v != declared.v {
                    return Err(
                        EngineError::VerificationFailed(VerifyFailure::PublicInputHashMismatch),
                    );
                }
                self.step = VerifyPublicInputStep::Program;
                proof {
                    assert(Seq::<Vec<u8>>::empty().map_values(|c: Vec<u8>| c@) =~= Seq::<
                        Task,
                    >::empty().map_values(|t: Task| task_frame(t)));
                }
                Ok(Vec::new())
            },
            VerifyPublicInputStep::Program => {
                self.step = VerifyPublicInputStep::Done;
                proof {
                    assert(Seq::<Vec<u8>>::empty().map_values(|c: Vec<u8>| c@) =~= Seq::<
                        Task,
                    >::empty().map_values(|t: Task| task_frame(t)));
                }
                Ok(Vec::new())
            },
            VerifyPublicInputStep::Done => {
                proof {
                    assert(Seq::<Vec<u8>>::empty().map_values(|c: Vec<u8>| c@) =~= Seq::<
                        Task,
                    >::empty().map_values(|t: Task| task_frame(t)));
                }
                Ok(Vec::new())
            },
        }
    }

    pub fn is_finished(&self) -> (r: bool)
        ensures
            r == (self.step == VerifyPublicInputStep::Done),
    {
        match self.step {
            VerifyPublicInputStep::Done => true,
            _ => false,
        }
    }
}

} // verus!
