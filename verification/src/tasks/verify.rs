//! The pipeline orchestrator: a fixed-order state machine that spawns one
//! child task per verification phase and never reorders or skips a phase.
//! It does no cryptographic work itself.

use vstd::prelude::*;
use crate::errors::EngineError;
use crate::stack::Stack;
use crate::tasks::{encode_task, step_go, task_frame, StepSpec, Task};
use crate::tasks::get_hash::{GetHash, GetHashStep};
use crate::tasks::stark_commit::{StarkCommit, StarkCommitStep};
use crate::tasks::stark_verify::{StarkVerify, StarkVerifyStep};
use crate::tasks::validate_public_input::{ValidatePublicInput, ValidatePublicInputStep};
use crate::tasks::verify_public_input::{VerifyPublicInput, VerifyPublicInputStep};
use crate::felt::Felt;

verus! {

#[derive(Clone, Copy, Debug, PartialEq, Eq, Structural)]
pub enum VerifyStep {
    ValidatePublicInput,
    GetHash,
    StarkCommit,
    StarkVerify,
    VerifyPublicInput,
    Done,
}

#[derive(Clone, Copy, Debug, PartialEq, Eq, Structural)]
pub struct Verify {
    pub step: VerifyStep,
}

pub open spec fn verify_step_byte(s: VerifyStep) -> u8 {
    match s {
        VerifyStep::ValidatePublicInput => 0,
        VerifyStep::GetHash => 1,
        VerifyStep::StarkCommit => 2,
        VerifyStep::StarkVerify => 3,
        VerifyStep::VerifyPublicInput => 4,
        VerifyStep::Done => 5,
    }
}

pub open spec fn verify_step_of_byte(b: u8) -> Option<VerifyStep> {
    if b == 0 {
        Some(VerifyStep::ValidatePublicInput)
    } else if b == 1 {
        Some(VerifyStep::GetHash)
    } else if b == 2 {
        Some(VerifyStep::StarkCommit)
    } else if b == 3 {
        Some(VerifyStep::StarkVerify)
    } else if b == 4 {
        Some(VerifyStep::VerifyPublicInput)
    } else if b == 5 {
        Some(VerifyStep::Done)
    } else {
        None
    }
}

pub fn verify_step_to_byte(s: VerifyStep) -> (b: u8)
    ensures
        b == verify_step_byte(s),
{
    match s {
        VerifyStep::ValidatePublicInput => 0,
        VerifyStep::GetHash => 1,
        VerifyStep::StarkCommit => 2,
        VerifyStep::StarkVerify => 3,
        VerifyStep::VerifyPublicInput => 4,
        VerifyStep::Done => 5,
    }
}

pub fn verify_step_from_byte(b: u8) -> (r: Option<VerifyStep>)
    ensures
        r == verify_step_of_byte(b),
{
    if b == 0 {
        Some(VerifyStep::ValidatePublicInput)
    } else if b == 1 {
        Some(VerifyStep::GetHash)
    } else if b == 2 {
        Some(VerifyStep::StarkCommit)
    } else if b == 3 {
        Some(VerifyStep::StarkVerify)
    } else if b == 4 {
        Some(VerifyStep::VerifyPublicInput)
    } else if b == 5 {
        Some(VerifyStep::Done)
    } else {
        None
    }
}

impl Verify {
    pub fn new() -> (t: Verify)
        ensures
            t == (Verify { step: VerifyStep::ValidatePublicInput }),
    {
        Verify { step: VerifyStep::ValidatePublicInput }
    }

    /// The orchestration law: each phase spawns exactly the next phase's task
    /// and advances; the data region is never touched.
    pub open spec fn step_spec(self, data: Seq<Seq<u8>>) -> StepSpec {
        match self.step {
            VerifyStep::ValidatePublicInput => step_go(
                Task::Verify(Verify { step: VerifyStep::GetHash }),
                seq![
                    Task::ValidatePublicInput(
                        ValidatePublicInput { step: ValidatePublicInputStep::Init },
                    ),
                ],
                data,
            ),
            VerifyStep::GetHash => step_go(
                Task::Verify(Verify { step: VerifyStep::StarkCommit }),
                seq![
                    Task::GetHash(GetHash { step: GetHashStep::Init, main_page_hash: Felt { v: 0 } }),
                ],
                data,
            ),
            VerifyStep::StarkCommit => step_go(
                Task::Verify(Verify { step: VerifyStep::StarkVerify }),
                seq![
                    Task::StarkCommit(
                        StarkCommit { step: StarkCommitStep::Init, seed: Felt { v: 0 } },
                    ),
                ],
                data,
            ),
            VerifyStep::StarkVerify => step_go(
                Task::Verify(Verify { step: VerifyStep::VerifyPublicInput }),
                seq![
                    Task::StarkVerify(
                        StarkVerify { step: StarkVerifyStep::Init, challenge: Felt { v: 0 } },
                    ),
                ],
                data,
            ),
            VerifyStep::VerifyPublicInput => step_go(
                Task::Verify(Verify { step: VerifyStep::Done }),
                seq![
                    Task::VerifyPublicInput(
                        VerifyPublicInput { step: VerifyPublicInputStep::Init, observed: Felt { v: 0 } },
                    ),
                ],
                data,
            ),
            VerifyStep::Done => step_go(Task::Verify(self), Seq::empty(), data),
        }
    }

    pub fn execute(&mut self, stack: &mut Stack) -> (r: Result<Vec<Vec<u8>>, EngineError>)
        requires
            old(stack).wf(),
        ensures
            final(stack).wf(),
            final(stack).proof_model() == old(stack).proof_model(),
            final(stack).task_frames() == old(stack).task_frames(),
            final(stack).data_records() == old(stack).data_records(),
            final(stack).data_cap() == old(stack).data_cap(),
            final(stack).task_cap() == old(stack).task_cap(),
            ({
                let ss = old(self).step_spec(old(stack).data_records());
                match r {
                    Ok(children) => ss.fail is None && Task::Verify(*final(self)) == ss.task
                        && final(stack).data_records() == ss.data && children@.map_values(
                        |c: Vec<u8>| c@,
                    ) == ss.children.map_values(|t: Task| task_frame(t)),
                    Err(e) => false,
                }
            }),
    {
        let ghost ss = self.step_spec(stack.data_records());
        let mut children: Vec<Vec<u8>> = Vec::new();
        match self.step {
            VerifyStep::ValidatePublicInput => {
                self.step = VerifyStep::GetHash;
                children.push(
                    encode_task(
                        &Task::ValidatePublicInput(
                            ValidatePublicInput { step: ValidatePublicInputStep::Init },
                        ),
                    ),
                );
            },
            VerifyStep::GetHash => {
                self.step = VerifyStep::StarkCommit;
                children.push(
                    encode_task(
                        &Task::GetHash(
                            GetHash { step: GetHashStep::Init, main_page_hash: Felt { v: 0 } },
                        ),
                    ),
                );
            },
            VerifyStep::StarkCommit => {
                self.step = VerifyStep::StarkVerify;
                children.push(
                    encode_task(
                        &Task::StarkCommit(
                            StarkCommit { step: StarkCommitStep::Init, seed: Felt { v: 0 } },
                        ),
                    ),
                );
            },
            VerifyStep::StarkVerify => {
                self.step = VerifyStep::VerifyPublicInput;
                children.push(
                    encode_task(
                        &Task::StarkVerify(
                            StarkVerify { step: StarkVerifyStep::Init, challenge: Felt { v: 0 } },
                        ),
                    ),
                );
            },
            VerifyStep::VerifyPublicInput => {
                self.step = VerifyStep::Done;
                children.push(
                    encode_task(
                        &Task::VerifyPublicInput(
                            VerifyPublicInput {
                                step: VerifyPublicInputStep::Init,
                                observed: Felt { v: 0 },
                            },
                        ),
                    ),
                );
            },
            VerifyStep::Done => {},
        }
        proof {
            assert(children@.map_values(|c: Vec<u8>| c@) =~= ss.children.map_values(
                |t: Task| task_frame(t),
            ));
        }
        Ok(children)
    }

    pub fn is_finished(&self) -> (r: bool)
        ensures
            r == (self.step == VerifyStep::Done),
    {
        match self.step {
            VerifyStep::Done => true,
            _ => false,
        }
    }
}

} // verus!
