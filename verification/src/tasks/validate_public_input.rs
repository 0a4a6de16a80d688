//! The public-input validation phase: rejects proofs whose public input is
//! internally inconsistent before any hashing starts.

use vstd::prelude::*;
use crate::errors::{EngineError, VerifyFailure};
use crate::stack::Stack;
use crate::stark_proof::{
    check_main_page, check_page_headers, check_segments, main_page_valid, page_headers_valid,
    range_check_valid, segments_valid, ProofModel,
};
use crate::tasks::{step_fail, step_go, task_frame, StepSpec, Task};

verus! {

#[derive(Clone, Copy, Debug, PartialEq, Eq, Structural)]
pub enum ValidatePublicInputStep {
    Init,
    Output,
    Program,
    Done,
}

#[derive(Clone, Copy, Debug, PartialEq, Eq, Structural)]
pub struct ValidatePublicInput {
    pub step: ValidatePublicInputStep,
}

pub open spec fn validate_step_byte(s: ValidatePublicInputStep) -> u8 {
    match s {
        ValidatePublicInputStep::Init => 0,
        ValidatePublicInputStep::Output => 1,
        ValidatePublicInputStep::Program => 2,
        ValidatePublicInputStep::Done => 3,
    }
}

pub open spec fn validate_step_of_byte(b: u8) -> Option<ValidatePublicInputStep> {
    if b == 0 {
        Some(ValidatePublicInputStep::Init)
    } else if b == 1 {
        Some(ValidatePublicInputStep::Output)
    } else if b == 2 {
        Some(ValidatePublicInputStep::Program)
    } else if b == 3 {
        Some(ValidatePublicInputStep::Done)
    } else {
        None
    }
}

pub fn validate_step_to_byte(s: ValidatePublicInputStep) -> (b: u8)
    ensures
        b == validate_step_byte(s),
{
    match s {
        ValidatePublicInputStep::Init => 0,
        ValidatePublicInputStep::Output => 1,
        ValidatePublicInputStep::Program => 2,
        ValidatePublicInputStep::Done => 3,
    }
}

pub fn validate_step_from_byte(b: u8) -> (r: Option<ValidatePublicInputStep>)
    ensures
        r == validate_step_of_byte(b),
{
    if b == 0 {
        Some(ValidatePublicInputStep::Init)
    } else if b == 1 {
        Some(ValidatePublicInputStep::Output)
    } else if b == 2 {
        Some(ValidatePublicInputStep::Program)
    } else if b == 3 {
        Some(ValidatePublicInputStep::Done)
    } else {
        None
    }
}

impl ValidatePublicInput {
    pub fn new() -> (t: ValidatePublicInput)
        ensures
            t == (ValidatePublicInput { step: ValidatePublicInputStep::Init }),
    {
        ValidatePublicInput { step: ValidatePublicInputStep::Init }
    }

    /// One consistency check per step: segments, then range-check bounds and
    /// main-page ordering, then page headers.  A failed check is the designed
    /// negative outcome of its phase.
    pub open spec fn step_spec(self, data: Seq<Seq<u8>>, p: ProofModel) -> StepSpec {
        match self.step {
            ValidatePublicInputStep::Init => if !segments_valid(p.public_input.segments) {
                step_fail(
                    EngineError::VerificationFailed(VerifyFailure::MalformedSegments),
                    Task::ValidatePublicInput(self),
                    data,
                )
            } else {
                step_go(
                    Task::ValidatePublicInput(
                        ValidatePublicInput { step: ValidatePublicInputStep::Output },
                    ),
                    Seq::empty(),
                    data,
                )
            },
            ValidatePublicInputStep::Output => if !range_check_valid(p.public_input) {
                step_fail(
                    EngineError::VerificationFailed(VerifyFailure::RangeCheckOrder),
                    Task::ValidatePublicInput(self),
                    data,
                )
            } else if !main_page_valid(p.public_input.main_page) {
                step_fail(
                    EngineError::VerificationFailed(VerifyFailure::AddressOutOfOrder),
                    Task::ValidatePublicInput(self),
                    data,
                )
            } else {
                step_go(
                    Task::ValidatePublicInput(
                        ValidatePublicInput { step: ValidatePublicInputStep::Program },
                    ),
                    Seq::empty(),
                    data,
                )
            },
            ValidatePublicInputStep::Program => if !page_headers_valid(
                p.public_input.continuous_page_headers,
            ) {
                step_fail(
                    EngineError::VerificationFailed(VerifyFailure::EmptyPageHeader),
                    Task::ValidatePublicInput(self),
                    data,
                )
            } else {
                step_go(
                    Task::ValidatePublicInput(
                        ValidatePublicInput { step: ValidatePublicInputStep::Done },
                    ),
                    Seq::empty(),
                    data,
                )
            },
            ValidatePublicInputStep::Done => step_go(
                Task::ValidatePublicInput(self),
                Seq::empty(),
                data,
            ),
        }
    }

    pub fn execute(&mut self, stack: &mut Stack) -> (r: Result<Vec<Vec<u8>>, EngineError>)
        requires
            old(stack).wf(),
        ensures
            final(stack).wf(),
            final(stack).proof_model() == old(stack).proof_model(),
            final(stack).task_frames() == old(stack).task_frames(),
            final(stack).data_records() == old(stack).data_records(),
            final(stack).data_cap() == old(stack).data_cap(),
            final(stack).task_cap() == old(stack).task_cap(),
            ({
                let ss = old(self).step_spec(old(stack).data_records(), old(stack).proof_model());
                match r {
                    Ok(children) => ss.fail is None && Task::ValidatePublicInput(*final(self))
                        == ss.task && final(stack).data_records() == ss.data
                        && children@.map_values(|c: Vec<u8>| c@) == ss.children.map_values(
                        |t: Task| task_frame(t),
                    ),
                    Err(e) => ss.fail == Some(e) && *final(self) == *old(self),
                }
            }),
    {
        let ghost ss = self.step_spec(stack.data_records(), stack.proof_model());
        match self.step {
            ValidatePublicInputStep::Init => {
                if !check_segments(&stack.proof_view().public_input.segments) {
                    return Err(EngineError::VerificationFailed(VerifyFailure::MalformedSegments));
                }
                self.step = ValidatePublicInputStep::Output;
            },
            ValidatePublicInputStep::Output => {
                let rc_ok = {
                    let p = stack.proof_view();
                    p.public_input.range_check_min.le(p.public_input.range_check_max)
                };
                if !rc_ok {
                    return Err(EngineError::VerificationFailed(VerifyFailure::RangeCheckOrder));
                }
                if !check_main_page(&stack.proof_view().public_input.main_page) {
                    return Err(EngineError::VerificationFailed(VerifyFailure::AddressOutOfOrder));
                }
                self.step = ValidatePublicInputStep::Program;
            },
            ValidatePublicInputStep::Program => {
                if !check_page_headers(&stack.proof_view().public_input.continuous_page_headers) {
                    return Err(EngineError::VerificationFailed(VerifyFailure::EmptyPageHeader));
                }
                self.step = ValidatePublicInputStep::Done;
            },
            ValidatePublicInputStep::Done => {},
        }
        proof {
            assert(Seq::<Vec<u8>>::empty().map_values(|c: Vec<u8>| c@) =~= Seq::<
                Task,
            >::empty().map_values(|t: Task| task_frame(t)));
        }
        Ok(Vec::new())
    }

    pub fn is_finished(&self) -> (r: bool)
        ensures
            r == (self.step == ValidatePublicInputStep::Done),
    {
        match self.step {
            ValidatePublicInputStep::Done => true,
            _ => false,
        }
    }
}

} // verus!
