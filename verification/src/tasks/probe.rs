//! A diagnostic counting task for observing the scheduler: it writes a start
//! marker to the data region, optionally spawns two child probes, and writes
//! a resume marker on its next turn — so the exact execution order of a
//! parent and its children can be read off the data region.

use vstd::prelude::*;
use crate::errors::EngineError;
use crate::stack::{lemma_stack_costs, region_cost, Stack};
use crate::tasks::{encode_task, step_go, task_frame, StepSpec, Task};

verus! {

#[derive(Clone, Copy, Debug, PartialEq, Eq, Structural)]
pub enum ProbeStep {
    Init,
    Resume,
    Done,
}

#[derive(Clone, Copy, Debug, PartialEq, Eq, Structural)]
pub struct Probe {
    pub step: ProbeStep,
    pub label: u8,
    pub left: u8,
    pub right: u8,
}

pub open spec fn probe_step_byte(s: ProbeStep) -> u8 {
    match s {
        ProbeStep::Init => 0,
        ProbeStep::Resume => 1,
        ProbeStep::Done => 2,
    }
}

pub open spec fn probe_step_of_byte(b: u8) -> Option<ProbeStep> {
    if b == 0 {
        Some(ProbeStep::Init)
    } else if b == 1 {
        Some(ProbeStep::Resume)
    } else if b == 2 {
        Some(ProbeStep::Done)
    } else {
        None
    }
}

pub fn probe_step_to_byte(s: ProbeStep) -> (b: u8)
    ensures
        b == probe_step_byte(s),
{
    match s {
        ProbeStep::Init => 0,
        ProbeStep::Resume => 1,
        ProbeStep::Done => 2,
    }
}

pub fn probe_step_from_byte(b: u8) -> (r: Option<ProbeStep>)
    ensures
        r == probe_step_of_byte(b),
{
    if b == 0 {
        Some(ProbeStep::Init)
    } else if b == 1 {
        Some(ProbeStep::Resume)
    } else if b == 2 {
        Some(ProbeStep::Done)
    } else {
        None
    }
}

/// A childless probe.
pub open spec fn probe_leaf(label: u8) -> Probe {
    Probe { step: ProbeStep::Init, label, left: 0, right: 0 }
}

/// The marker record a probe writes: its label and the phase it is in.
pub open spec fn probe_record(label: u8, phase: u8) -> Seq<u8> {
    seq![label, phase]
}

impl Probe {
    /// A probe that will spawn two child probes labelled `left` and `right`
    /// (zero for none).
    pub fn new(label: u8, left: u8, right: u8) -> (t: Probe)
        ensures
            t == (Probe { step: ProbeStep::Init, label, left, right }),
    {
        Probe { step: ProbeStep::Init, label, left, right }
    }

    pub open spec fn step_spec(self, data: Seq<Seq<u8>>) -> StepSpec {
        match self.step {
            ProbeStep::Init => step_go(
                Task::Probe(Probe { step: ProbeStep::Resume, ..self }),
                if self.left == 0 && self.right == 0 {
                    Seq::empty()
                } else {
                    seq![Task::Probe(probe_leaf(self.left)), Task::Probe(probe_leaf(self.right))]
                },
                data.push(probe_record(self.label, 0)),
            ),
            ProbeStep::Resume => step_go(
                Task::Probe(Probe { step: ProbeStep::Done, ..self }),
                Seq::empty(),
                data.push(probe_record(self.label, 1)),
            ),
            ProbeStep::Done => step_go(Task::Probe(self), Seq::empty(), data),
        }
    }

    pub fn execute(&mut self, stack: &mut Stack) -> (r: Result<Vec<Vec<u8>>, EngineError>)
        requires
            old(stack).wf(),
        ensures
            final(stack).wf(),
            final(stack).proof_model() == old(stack).proof_model(),
            final(stack).task_frames() == old(stack).task_frames(),
            final(stack).data_cap() == old(stack).data_cap(),
            final(stack).task_cap() == old(stack).task_cap(),
            ({
                let ss = old(self).step_spec(old(stack).data_records());
                match r {
                    Ok(children) => ss.fail is None && Task::Probe(*final(self)) == ss.task
                        && final(stack).data_records() == ss.data && children@.map_values(
                        |c: Vec<u8>| c@,
                    ) == ss.children.map_values(|t: Task| task_frame(t)),
                    Err(e) => e == EngineError::CapacityExceeded && region_cost(ss.data) > old(stack).data_cap()
                        && *final(self) == *old(self)
                        && final(stack).data_records() == old(stack).data_records(),
                }
            }),
    {
        let ghost ss = self.step_spec(stack.data_records());
        match self.step {
            ProbeStep::Init => {
                proof {
                    lemma_stack_costs(*stack);
                    assert(old(stack).data_records().push(probe_record(old(self).label, 0)).drop_last()
                        =~= old(stack).data_records());
                }
                let used = stack.data_bytes_used();
                let cap = stack.data_capacity();
                if cap - used < 6 {
                    return Err(EngineError::CapacityExceeded);
                }
                let mut rec: Vec<u8> = Vec::new();
                rec.push(self.label);
                rec.push(0);
                proof {
                    assert(rec@ =~= probe_record(old(self).label, 0));
                }
                stack.push_data(rec)?;
                let mut children: Vec<Vec<u8>> = Vec::new();
                if !(self.left == 0 && self.right == 0) {
                    children.push(encode_task(&Task::Probe(Probe::new(self.left, 0, 0))));
                    children.push(encode_task(&Task::Probe(Probe::new(self.right, 0, 0))));
                }
                self.step = ProbeStep::Resume;
                proof {
                    assert(children@.map_values(|c: Vec<u8>| c@) =~= ss.children.map_values(
                        |t: Task| task_frame(t),
                    ));
                }
                Ok(children)
            },
            ProbeStep::Resume => {
                proof {
                    lemma_stack_costs(*stack);
                    assert(old(stack).data_records().push(probe_record(old(self).label, 1)).drop_last()
                        =~= old(stack).data_records());
                }
                let used = stack.data_bytes_used();
                let cap = stack.data_capacity();
                if cap - used < 6 {
                    return Err(EngineError::CapacityExceeded);
                }
                let mut rec: Vec<u8> = Vec::new();
                rec.push(self.label);
                rec.push(1);
                proof {
                    assert(rec@ =~= probe_record(old(self).label, 1));
                }
                stack.push_data(rec)?;
                self.step = ProbeStep::Done;
                proof {
                    assert(Seq::<Vec<u8>>::empty().map_values(|c: Vec<u8>| c@) =~= Seq::<
                        Task,
                    >::empty().map_values(|t: Task| task_frame(t)));
                }
                Ok(Vec::new())
            },
            ProbeStep::Done => {
                proof {
                    assert(Seq::<Vec<u8>>::empty().map_values(|c: Vec<u8>| c@) =~= Seq::<
                        Task,
                    >::empty().map_values(|t: Task| task_frame(t)));
                }
                Ok(Vec::new())
            },
        }
    }

    pub fn is_finished(&self) -> (r: bool)
        ensures
            r == (self.step == ProbeStep::Done),
    {
        match self.step {
            ProbeStep::Done => true,
            _ => false,
        }
    }
}

} // verus!
