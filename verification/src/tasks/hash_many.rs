//! The hash-many child task: the resumable form of the many-to-one hash.
//! Its parent lays out, at the data end, three initial-state records topped
//! by the message records; the task absorbs the message two records per tick
//! and finally leaves the three state lanes as records, digest on top.

use vstd::prelude::*;
use crate::errors::EngineError;
use crate::felt::{be_bytes8, felt_of_record_spec, felt_of_record, Felt};
use crate::hash::{absorb, absorb_spec, state_wf};
use crate::stack::{
    lemma_region_cost_concat, lemma_region_cost_uniform, lemma_stack_costs, region_cost, Stack,
};
use crate::tasks::{step_fail, step_go, task_frame, StepSpec, Task};

verus! {

#[derive(Clone, Copy, Debug, PartialEq, Eq, Structural)]
pub enum HashManyStep {
    Init,
    Absorb,
    Squeeze,
    Done,
}

#[derive(Clone, Copy, Debug, PartialEq, Eq, Structural)]
pub struct HashMany {
    pub step: HashManyStep,
    pub input_len: u64,
    pub remaining: u64,
    pub s0: Felt,
    pub s1: Felt,
    pub s2: Felt,
}

/// The records a hash batch adds to the data region, in push order: padding
/// to an even message length, then the message in reverse (so its head ends
/// on top), then three zero records that seed the child's state lanes.
pub open spec fn hash_batch_records(msg: Seq<Felt>) -> Seq<Seq<u8>> {
    Seq::new(msg.len() % 2, |i: int| be_bytes8(0u64)) + Seq::new(
        msg.len(),
        |j: int| be_bytes8(msg[msg.len() - 1 - j].v),
    ) + seq![be_bytes8(0u64), be_bytes8(0u64), be_bytes8(0u64)]
}

/// An even message length, padded up if necessary.
pub open spec fn padded_len(n: int) -> int {
    n + (n % 2)
}

impl HashMany {
    pub open spec fn state(self) -> (Felt, Felt, Felt) {
        (self.s0, self.s1, self.s2)
    }

    pub open spec fn wf(self) -> bool {
        state_wf(self.state())
    }

    /// A child sized to consume exactly `input_len` message records.
    pub fn new(input_len: u64) -> (t: HashMany)
        ensures
            t == (HashMany {
                step: HashManyStep::Init,
                input_len,
                remaining: 0,
                s0: Felt { v: 0 },
                s1: Felt { v: 0 },
                s2: Felt { v: 0 },
            }),
    {
        HashMany {
            step: HashManyStep::Init,
            input_len,
            remaining: 0,
            s0: Felt { v: 0 },
            s1: Felt { v: 0 },
            s2: Felt { v: 0 },
        }
    }

    /// The effect of one step on the data region.
    pub open spec fn step_spec(self, data: Seq<Seq<u8>>) -> StepSpec {
        match self.step {
            HashManyStep::Init => if data.len() < 3 {
                step_fail(EngineError::Empty, Task::HashMany(self), data)
            } else {
                step_go(
                    Task::HashMany(
                        HashMany {
                            step: HashManyStep::Absorb,
                            input_len: self.input_len,
                            remaining: self.input_len,
                            s0: felt_of_record_spec(data[data.len() - 1]),
                            s1: felt_of_record_spec(data[data.len() - 2]),
                            s2: felt_of_record_spec(data[data.len() - 3]),
                        },
                    ),
                    Seq::empty(),
                    data.subrange(0, data.len() - 3),
                )
            },
            HashManyStep::Absorb => if self.remaining < 2 {
                step_go(
                    Task::HashMany(HashMany { step: HashManyStep::Squeeze, ..self }),
                    Seq::empty(),
                    data,
                )
            } else if data.len() < 2 {
                step_fail(EngineError::Empty, Task::HashMany(self), data)
            } else {
                let x = felt_of_record_spec(data[data.len() - 1]);
                let y = felt_of_record_spec(data[data.len() - 2]);
                let st = absorb_spec(self.state(), x, y);
                step_go(
                    Task::HashMany(
                        HashMany {
                            step: HashManyStep::Absorb,
                            input_len: self.input_len,
                            remaining: (self.remaining - 2) as u64,
                            s0: st.0,
                            s1: st.1,
                            s2: st.2,
                        },
                    ),
                    Seq::empty(),
                    data.subrange(0, data.len() - 2),
                )
            },
            HashManyStep::Squeeze => step_go(
                Task::HashMany(HashMany { step: HashManyStep::Done, ..self }),
                Seq::empty(),
                data + seq![be_bytes8(self.s2.v), be_bytes8(self.s1.v), be_bytes8(self.s0.v)],
            ),
            HashManyStep::Done => step_go(Task::HashMany(self), Seq::empty(), data),
        }
    }

    #[verifier::rlimit(60)]
    pub fn execute(&mut self, stack: &mut Stack) -> (r: Result<Vec<Vec<u8>>, EngineError>)
        requires
            old(stack).wf(),
            old(self).wf(),
        ensures
            final(stack).wf(),
            final(self).wf(),
            final(stack).proof_model() == old(stack).proof_model(),
            final(stack).task_frames() == old(stack).task_frames(),
            final(stack).data_cap() == old(stack).data_cap(),
            final(stack).task_cap() == old(stack).task_cap(),
            ({
                let ss = old(self).step_spec(old(stack).data_records());
                match r {
                    Ok(children) => ss.fail is None && Task::HashMany(*final(self)) == ss.task
                        && final(stack).data_records() == ss.data && children@.map_values(
                        |c: Vec<u8>| c@,
                    ) == ss.children.map_values(|t: Task| task_frame(t)),
                    Err(e) => (ss.fail == Some(e) && *final(self) == *old(self)
                        && final(stack).data_records() == old(stack).data_records()) || (e
                        == EngineError::CapacityExceeded && ss.fail is None
                        && region_cost(ss.data) > old(stack).data_cap()
                        && *final(self) == *old(self)
                        && final(stack).data_records() == old(stack).data_records()),
                }
            }),
    {
        let ghost ss = self.step_spec(stack.data_records());
        match self.step {
            HashManyStep::Init => {
                if stack.data_len() < 3 {
                    return Err(EngineError::Empty);
                }
                let r0 = stack.pop_data()?;
                let r1 = stack.pop_data()?;
                let r2 = stack.pop_data()?;
                self.s0 = felt_of_record(&r0);
                self.s1 = felt_of_record(&r1);
                self.s2 = felt_of_record(&r2);
                self.remaining = self.input_len;
                self.step = HashManyStep::Absorb;
                proof {
                    assert(stack.data_records() =~= old(stack).data_records().subrange(
                        0,
                        old(stack).data_records().len() - 3,
                    ));
                    assert(Seq::<Vec<u8>>::empty().map_values(|c: Vec<u8>| c@)
                        =~= Seq::<Task>::empty().map_values(|t: Task| task_frame(t)));
                }
                Ok(Vec::new())
            },
            HashManyStep::Absorb => {
                if self.remaining < 2 {
                    self.step = HashManyStep::Squeeze;
                    proof {
                        assert(Seq::<Vec<u8>>::empty().map_values(|c: Vec<u8>| c@)
                            =~= Seq::<Task>::empty().map_values(|t: Task| task_frame(t)));
                    }
                    return Ok(Vec::new());
                }
                if stack.data_len() < 2 {
                    return Err(EngineError::Empty);
                }
                let rx = stack.pop_data()?;
                let ry = stack.pop_data()?;
                let x = felt_of_record(&rx);
                let y = felt_of_record(&ry);
                let st = absorb((self.s0, self.s1, self.s2), x, y);
                self.s0 = st.0;
                self.s1 = st.1;
                self.s2 = st.2;
                self.remaining = self.remaining - 2;
                proof {
                    assert(stack.data_records() =~= old(stack).data_records().subrange(
                        0,
                        old(stack).data_records().len() - 2,
                    ));
                    assert(Seq::<Vec<u8>>::empty().map_values(|c: Vec<u8>| c@)
                        =~= Seq::<Task>::empty().map_values(|t: Task| task_frame(t)));
                }
                Ok(Vec::new())
            },
            HashManyStep::Squeeze => {
                proof {
                    lemma_stack_costs(*stack);
                }
                let used = stack.data_bytes_used();
                let cap = stack.data_capacity();
                let ghost out3 = seq![
                    be_bytes8(self.s2.v),
                    be_bytes8(self.s1.v),
                    be_bytes8(self.s0.v),
                ];
                proof {
                    assert(forall|k: int| 0 <= k < out3.len() ==> (#[trigger] out3[k]).len() == 8);
                    lemma_region_cost_uniform(out3, 8);
                    lemma_region_cost_concat(old(stack).data_records(), out3);
                }
                if cap - used < 36 {
                    return Err(EngineError::CapacityExceeded);
                }
                stack.push_data(self.s2.to_bytes_be())?;
                let ghost d1 = stack.data_records();
                proof {
                    assert(d1.drop_last() =~= old(stack).data_records());
                    assert(region_cost(d1) == used + 12);
                }
                stack.push_data(self.s1.to_bytes_be())?;
                let ghost d2 = stack.data_records();
                proof {
                    assert(d2.drop_last() =~= d1);
                    assert(region_cost(d2) == used + 24);
                }
                stack.push_data(self.s0.to_bytes_be())?;
                self.step = HashManyStep::Done;
                proof {
                    assert(stack.data_records() =~= old(stack).data_records() + seq![
                        be_bytes8(self.s2.v),
                        be_bytes8(self.s1.v),
                        be_bytes8(self.s0.v),
                    ]);
                    assert(Seq::<Vec<u8>>::empty().map_values(|c: Vec<u8>| c@)
                        =~= Seq::<Task>::empty().map_values(|t: Task| task_frame(t)));
                }
                Ok(Vec::new())
            },
            HashManyStep::Done => {
                proof {
                    assert(Seq::<Vec<u8>>::empty().map_values(|c: Vec<u8>| c@)
                        =~= Seq::<Task>::empty().map_values(|t: Task| task_frame(t)));
                }
                Ok(Vec::new())
            },
        }
    }

    pub fn is_finished(&self) -> (r: bool)
        ensures
            r == (self.step == HashManyStep::Done),
    {
        match self.step {
            HashManyStep::Done => true,
            _ => false,
        }
    }
}

/// Every record of a hash batch is one encoded field element wide, so the
/// batch costs exactly twelve bytes per record.
pub proof fn lemma_hash_batch_cost(msg: Seq<Felt>)
    ensures
        hash_batch_records(msg).len() == msg.len() + msg.len() % 2 + 3,
        forall|i: int|
            0 <= i < hash_batch_records(msg).len() ==> (#[trigger] hash_batch_records(msg)[i]).len()
                == 8,
        region_cost(hash_batch_records(msg)) == (msg.len() + msg.len() % 2 + 3) * 12,
{
    let t = hash_batch_records(msg);
    let pad = msg.len() % 2;
    assert forall|i: int| 0 <= i < t.len() implies (#[trigger] t[i]).len() == 8 by {
        if i < pad {
            assert(t[i] == be_bytes8(0u64));
        } else if i < pad + msg.len() {
            assert(t[i] == be_bytes8(msg[msg.len() - 1 - (i - pad)].v));
        } else {
            assert(t[i] == be_bytes8(0u64));
        }
    }
    lemma_region_cost_uniform(t, 8);
}

proof fn lemma_batch_prefix_fits(base: Seq<Seq<u8>>, total: Seq<Seq<u8>>, k: int, cap: int)
    requires
        forall|i: int| 0 <= i < total.len() ==> (#[trigger] total[i]).len() == 8,
        0 <= k < total.len(),
        region_cost(base) + total.len() * 12 <= cap,
    ensures
        region_cost(base + total.subrange(0, k)) + 12 <= cap,
        region_cost(base + total.subrange(0, k)) == region_cost(base) + k * 12,
{
    lemma_region_cost_concat(base, total.subrange(0, k));
    assert(forall|i: int|
        0 <= i < k ==> (#[trigger] total.subrange(0, k)[i]).len() == 8);
    lemma_region_cost_uniform(total.subrange(0, k), 8);
}

/// Lays a hash batch out on the data region: padding, the message in reverse,
/// and the three zero state records the child starts from.  Succeeds exactly
/// when the whole batch fits the data bound, and a refused batch changes
/// nothing.
pub fn push_hash_batch(stack: &mut Stack, msg: &Vec<Felt>) -> (r: Result<(), EngineError>)
    requires
        old(stack).wf(),
    ensures
        final(stack).wf(),
        final(stack).proof_model() == old(stack).proof_model(),
        final(stack).task_frames() == old(stack).task_frames(),
        final(stack).data_cap() == old(stack).data_cap(),
        final(stack).task_cap() == old(stack).task_cap(),
        match r {
            Ok(()) => region_cost(old(stack).data_records()) + region_cost(
                hash_batch_records(msg@),
            ) <= old(stack).data_cap() && final(stack).data_records() == old(stack).data_records()
                + hash_batch_records(msg@),
            Err(e) => e == EngineError::CapacityExceeded && region_cost(
                old(stack).data_records(),
            ) + region_cost(hash_batch_records(msg@)) > old(stack).data_cap() && final(stack).data_records() == old(stack).data_records(),
        },
{
    let ghost total = hash_batch_records(msg@);
    let ghost base = stack.data_records();
    let ghost pad: int = (msg@.len() % 2) as int;
    proof {
        lemma_hash_batch_cost(msg@);
        lemma_stack_costs(*stack);
        assert(total.len() == pad + msg@.len() + 3);
    }
    let used = stack.data_bytes_used();
    let cap = stack.data_capacity();
    let remaining = cap - used;
    let q = remaining / 12;
    proof {
        vstd::arithmetic::div_mod::lemma_fundamental_div_mod(remaining as int, 12);
    }
    if msg.len() > q {
        return Err(EngineError::CapacityExceeded);
    }
    let count = msg.len() + (msg.len() % 2) + 3;
    if count > q {
        return Err(EngineError::CapacityExceeded);
    }
    proof {
        assert(region_cost(base) + total.len() * 12 <= cap as int);
    }
    if msg.len() % 2 == 1 {
        proof {
            assert(stack.data_records() =~= base + total.subrange(0, 0));
            lemma_batch_prefix_fits(base, total, 0, cap as int);
        }
        stack.push_data(Felt::zero().to_bytes_be())?;
        proof {
            assert(total[0] == be_bytes8(0u64));
            assert(stack.data_records() =~= base + total.subrange(0, 1));
        }
    } else {
        proof {
            assert(stack.data_records() =~= base + total.subrange(0, 0));
        }
    }
    let mut i: usize = 0;
    while i < msg.len()
        invariant
            old(stack).wf(),
            stack.wf(),
            i <= msg@.len(),
            pad == msg@.len() % 2,
            total == hash_batch_records(msg@),
            total.len() == pad + msg@.len() + 3,
            base == old(stack).data_records(),
            stack.proof_model() == old(stack).proof_model(),
            stack.task_frames() == old(stack).task_frames(),
            stack.data_cap() == old(stack).data_cap(),
            stack.task_cap() == old(stack).task_cap(),
            stack.data_records() == base + total.subrange(0, pad + i),
            forall|k: int| 0 <= k < total.len() ==> (#[trigger] total[k]).len() == 8,
            region_cost(base) + total.len() * 12 <= stack.data_cap(),
        decreases msg@.len() - i,
    {
        proof {
            assert(total[pad + i] == be_bytes8(msg@[msg@.len() - 1 - i].v));
            lemma_batch_prefix_fits(base, total, pad + i, stack.data_cap());
        }
        stack.push_data(msg[msg.len() - 1 - i].to_bytes_be())?;
        i = i + 1;
        proof {
            assert(stack.data_records() =~= base + total.subrange(0, pad + i));
        }
    }
    let ghost mid: int = pad + msg@.len();
    proof {
        lemma_batch_prefix_fits(base, total, mid, cap as int);
    }
    stack.push_data(Felt::zero().to_bytes_be())?;
    proof {
        assert(total[mid] == be_bytes8(0u64));
        assert(stack.data_records() =~= base + total.subrange(0, mid + 1));
        lemma_batch_prefix_fits(base, total, mid + 1, cap as int);
    }
    stack.push_data(Felt::zero().to_bytes_be())?;
    proof {
        assert(total[mid + 1] == be_bytes8(0u64));
        assert(stack.data_records() =~= base + total.subrange(0, mid + 2));
        lemma_batch_prefix_fits(base, total, mid + 2, cap as int);
    }
    stack.push_data(Felt::zero().to_bytes_be())?;
    proof {
        assert(total[mid + 2] == be_bytes8(0u64));
        assert(stack.data_records() =~= base + total.subrange(0, mid + 3));
        assert(total.subrange(0, mid + 3) =~= total);
    }
    Ok(())
}

} // verus!
