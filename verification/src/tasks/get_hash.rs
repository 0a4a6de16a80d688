//! The commitment-hash phase: hashes the main page, then hashes the whole
//! public input (metadata, segments, page headers and the main-page hash)
//! through two hash-many children.

use vstd::prelude::*;
use crate::errors::EngineError;
use crate::felt::{felt_of_record, felt_of_record_spec, Felt};
use crate::stack::{lemma_region_cost_concat, region_cost, Stack};
use crate::stark_proof::{PageEntry, PageHeader, ProofModel, PublicInputModel, Segment};
use crate::tasks::hash_many::{hash_batch_records, padded_len, push_hash_batch, HashMany, HashManyStep};
use crate::tasks::{encode_task, step_fail, step_go, task_frame, StepSpec, Task};

verus! {

#[derive(Clone, Copy, Debug, PartialEq, Eq, Structural)]
pub enum GetHashStep {
    Init,
    HashData,
    MainPageHash,
    Program,
    Done,
}

#[derive(Clone, Copy, Debug, PartialEq, Eq, Structural)]
pub struct GetHash {
    pub step: GetHashStep,
    pub main_page_hash: Felt,
}

pub open spec fn get_hash_step_byte(s: GetHashStep) -> u8 {
    match s {
        GetHashStep::Init => 0,
        GetHashStep::HashData => 1,
        GetHashStep::MainPageHash => 2,
        GetHashStep::Program => 3,
        GetHashStep::Done => 4,
    }
}

pub open spec fn get_hash_step_of_byte(b: u8) -> Option<GetHashStep> {
    if b == 0 {
        Some(GetHashStep::Init)
    } else if b == 1 {
        Some(GetHashStep::HashData)
    } else if b == 2 {
        Some(GetHashStep::MainPageHash)
    } else if b == 3 {
        Some(GetHashStep::Program)
    } else if b == 4 {
        Some(GetHashStep::Done)
    } else {
        None
    }
}

pub fn get_hash_step_to_byte(s: GetHashStep) -> (b: u8)
    ensures
        b == get_hash_step_byte(s),
{
    match s {
        GetHashStep::Init => 0,
        GetHashStep::HashData => 1,
        GetHashStep::MainPageHash => 2,
        GetHashStep::Program => 3,
        GetHashStep::Done => 4,
    }
}

pub fn get_hash_step_from_byte(b: u8) -> (r: Option<GetHashStep>)
    ensures
        r == get_hash_step_of_byte(b),
{
    if b == 0 {
        Some(GetHashStep::Init)
    } else if b == 1 {
        Some(GetHashStep::HashData)
    } else if b == 2 {
        Some(GetHashStep::MainPageHash)
    } else if b == 3 {
        Some(GetHashStep::Program)
    } else if b == 4 {
        Some(GetHashStep::Done)
    } else {
        None
    }
}

/// The main page flattened for hashing: per entry, value then address.
pub open spec fn entry_flat(s: Seq<PageEntry>) -> Seq<Felt> {
    Seq::new(
        (2 * s.len()) as nat,
        |j: int| if j % 2 == 0 {
            s[j / 2].value
        } else {
            s[j / 2].address
        },
    )
}

/// The first hash message: the doubled entry count as a length marker, the
/// flattened main page, and the fixed zero/one sentinel pair.
pub open spec fn first_hash_message(p: PublicInputModel) -> Seq<Felt> {
    seq![Felt { v: (2 * p.main_page.len()) as u64 }] + entry_flat(p.main_page) + seq![
        Felt { v: 0 },
        Felt { v: 1 },
    ]
}

/// Segments flattened for hashing: per segment, begin address then stop pointer.
pub open spec fn seg_flat(s: Seq<Segment>) -> Seq<Felt> {
    Seq::new(
        (2 * s.len()) as nat,
        |j: int| if j % 2 == 0 {
            s[j / 2].begin_addr
        } else {
            s[j / 2].stop_ptr
        },
    )
}

/// Continuous-page headers flattened for hashing: start address, size, hash.
pub open spec fn header_flat(s: Seq<PageHeader>) -> Seq<Felt> {
    Seq::new(
        (3 * s.len()) as nat,
        |j: int| if j % 3 == 0 {
            s[j / 3].start_address
        } else if j % 3 == 1 {
            s[j / 3].size
        } else {
            s[j / 3].hash
        },
    )
}

/// The second hash message: scalar metadata, dynamic layout parameters,
/// segment bounds, padding pair, page counts, the main-page hash, and the
/// continuous-page headers, in this fixed order.
pub open spec fn second_hash_message(p: PublicInputModel, mph: Felt) -> Seq<Felt> {
    seq![p.log_n_steps, p.range_check_min, p.range_check_max, p.layout] + p.dynamic_params
        + seg_flat(p.segments) + seq![
        p.padding_addr,
        p.padding_value,
        Felt { v: (p.continuous_page_headers.len() + 1) as u64 },
        Felt { v: p.main_page.len() as u64 },
        mph,
    ] + header_flat(p.continuous_page_headers)
}

/// The length of the first hash input for a main page of `k` entries.
pub open spec fn hash_input_len(k: int) -> int {
    padded_len(2 * k + 3)
}

/// Padding law of the commitment hash: the first hash input holds the doubled
/// page length plus the marker and the sentinel pair, rounded up to the even
/// block arity — so it is always even, and an empty main page still yields a
/// valid, padded input.
pub proof fn lemma_hash_input_len(k: int)
    requires
        k >= 0,
    ensures
        hash_input_len(k) == 2 * k + 4,
        hash_input_len(k) % 2 == 0,
{
    assert((2 * k + 3) % 2 == 1) by {
        vstd::arithmetic::div_mod::lemma_fundamental_div_mod(2 * k + 3, 2);
        vstd::arithmetic::div_mod::lemma_fundamental_div_mod_converse(2 * k + 3, 2, k + 1, 1);
    }
    assert((2 * k + 4) % 2 == 0) by {
        vstd::arithmetic::div_mod::lemma_fundamental_div_mod_converse(2 * k + 4, 2, k + 2, 0);
    }
}

/// The first hash message of a proof has exactly the length the padding law
/// speaks of.
pub proof fn lemma_first_hash_message_len(p: PublicInputModel)
    ensures
        first_hash_message(p).len() == 2 * p.main_page.len() + 3,
        padded_len(first_hash_message(p).len() as int) == hash_input_len(p.main_page.len() as int),
{
}

impl GetHash {
    pub fn new() -> (t: GetHash)
        ensures
            t == (GetHash { step: GetHashStep::Init, main_page_hash: Felt { v: 0 } }),
    {
        GetHash { step: GetHashStep::Init, main_page_hash: Felt { v: 0 } }
    }

    pub open spec fn step_spec(self, data: Seq<Seq<u8>>, p: ProofModel) -> StepSpec {
        match self.step {
            GetHashStep::Init => step_go(
                Task::GetHash(GetHash { step: GetHashStep::HashData, ..self }),
                Seq::empty(),
                data,
            ),
            GetHashStep::HashData => {
                let msg = first_hash_message(p.public_input);
                step_go(
                    Task::GetHash(GetHash { step: GetHashStep::MainPageHash, ..self }),
                    seq![
                        Task::HashMany(
                            HashMany {
                                step: HashManyStep::Init,
                                input_len: padded_len(msg.len() as int) as u64,
                                remaining: 0,
                                s0: Felt { v: 0 },
                                s1: Felt { v: 0 },
                                s2: Felt { v: 0 },
                            },
                        ),
                    ],
                    data + hash_batch_records(msg),
                )
            },
            GetHashStep::MainPageHash => if data.len() < 3 {
                step_fail(EngineError::Empty, Task::GetHash(self), data)
            } else {
                step_go(
                    Task::GetHash(
                        GetHash {
                            step: GetHashStep::Program,
                            main_page_hash: felt_of_record_spec(data.last()),
                        },
                    ),
                    Seq::empty(),
                    data.subrange(0, data.len() - 3),
                )
            },
            GetHashStep::Program => {
                let msg = second_hash_message(p.public_input, self.main_page_hash);
                step_go(
                    Task::GetHash(GetHash { step: GetHashStep::Done, ..self }),
                    seq![
                        Task::HashMany(
                            HashMany {
                                step: HashManyStep::Init,
                                input_len: padded_len(msg.len() as int) as u64,
                                remaining: 0,
                                s0: Felt { v: 0 },
                                s1: Felt { v: 0 },
                                s2: Felt { v: 0 },
                            },
                        ),
                    ],
                    data + hash_batch_records(msg),
                )
            },
            GetHashStep::Done => step_go(Task::GetHash(self), Seq::empty(), data),
        }
    }

    pub fn execute(&mut self, stack: &mut Stack) -> (r: Result<Vec<Vec<u8>>, EngineError>)
        requires
            old(stack).wf(),
        ensures
            final(stack).wf(),
            final(stack).proof_model() == old(stack).proof_model(),
            final(stack).task_frames() == old(stack).task_frames(),
            final(stack).data_cap() == old(stack).data_cap(),
            final(stack).task_cap() == old(stack).task_cap(),
            ({
                let ss = old(self).step_spec(old(stack).data_records(), old(stack).proof_model());
                match r {
                    Ok(children) => ss.fail is None && Task::GetHash(*final(self)) == ss.task
                        && final(stack).data_records() == ss.data && children@.map_values(
                        |c: Vec<u8>| c@,
                    ) == ss.children.map_values(|t: Task| task_frame(t)),
                    Err(e) => (ss.fail == Some(e) && *final(self) == *old(self)
                        && final(stack).data_records() == old(stack).data_records()) || (e
                        == EngineError::CapacityExceeded && ss.fail is None
                        && region_cost(ss.data) > old(stack).data_cap()
                        && *final(self) == *old(self)
                        && final(stack).data_records() == old(stack).data_records()),
                }
            }),
    {
        let ghost ss = self.step_spec(stack.data_records(), stack.proof_model());
        match self.step {
            GetHashStep::Init => {
                self.step = GetHashStep::HashData;
                proof {
                    assert(Seq::<Vec<u8>>::empty().map_values(|c: Vec<u8>| c@) =~= Seq::<
                        Task,
                    >::empty().map_values(|t: Task| task_frame(t)));
                }
                Ok(Vec::new())
            },
            GetHashStep::HashData => {
                proof {
                    crate::stack::lemma_stack_proof_wf(*stack);
                }
                let ghost pm = stack.proof_model().public_input;
                let k = stack.proof_view().public_input.main_page.len();
                let mut msg: Vec<Felt> = Vec::new();
                msg.push(Felt { v: 2 * (k as u64) });
                let ghost head = seq![Felt { v: (2 * pm.main_page.len()) as u64 }];
                proof {
                    assert(msg@ =~= head + entry_flat(pm.main_page).subrange(0, 0));
                }
                let mut i: usize = 0;
                while i < k
                    invariant
                        *stack == *old(stack),
                        old(stack).wf(),
                        pm == old(stack).proof_model().public_input,
                        head == seq![Felt { v: (2 * pm.main_page.len()) as u64 }],
                        k == pm.main_page.len(),
                        i <= k,
                        msg@ == head + entry_flat(pm.main_page).subrange(0, 2 * i as int),
                    decreases k - i,
                {
                    let e = stack.proof_view().public_input.main_page[i];
                    msg.push(e.value);
                    msg.push(e.address);
                    proof {
                        assert(entry_flat(pm.main_page)[2 * i as int] == e.value);
                        assert(entry_flat(pm.main_page)[2 * i as int + 1] == e.address);
                        assert(msg@ =~= head + entry_flat(pm.main_page).subrange(
                            0,
                            2 * (i + 1) as int,
                        ));
                    }
                    i = i + 1;
                }
                msg.push(Felt { v: 0 });
                msg.push(Felt { v: 1 });
                proof {
                    assert(entry_flat(pm.main_page).subrange(0, 2 * k as int) =~= entry_flat(
                        pm.main_page,
                    ));
                    assert(msg@ =~= first_hash_message(pm));
                }
                match push_hash_batch(stack, &msg) {
                    Ok(()) => {},
                    Err(e) => {
                        proof {
                            lemma_region_cost_concat(
                                old(stack).data_records(),
                                hash_batch_records(first_hash_message(pm)),
                            );
                        }
                        return Err(e);
                    },
                }
                let ml = msg.len();
                let child_len = (ml as u64) + ((ml % 2) as u64);
                proof {
                    assert(child_len as int == padded_len(first_hash_message(pm).len() as int));
                }
                let child = HashMany::new(child_len);
                let mut children: Vec<Vec<u8>> = Vec::new();
                children.push(encode_task(&Task::HashMany(child)));
                self.step = GetHashStep::MainPageHash;
                proof {
                    assert(children@.map_values(|c: Vec<u8>| c@) =~= ss.children.map_values(
                        |t: Task| task_frame(t),
                    ));
                }
                Ok(children)
            },
            GetHashStep::MainPageHash => {
                if stack.data_len() < 3 {
                    return Err(EngineError::Empty);
                }
                let top = stack.pop_data()?;
                let _ = stack.pop_data()?;
                let _ = stack.pop_data()?;
                self.main_page_hash = felt_of_record(&top);
                self.step = GetHashStep::Program;
                proof {
                    assert(stack.data_records() =~= old(stack).data_records().subrange(
                        0,
                        old(stack).data_records().len() - 3,
                    ));
                    assert(Seq::<Vec<u8>>::empty().map_values(|c: Vec<u8>| c@) =~= Seq::<
                        Task,
                    >::empty().map_values(|t: Task| task_frame(t)));
                }
                Ok(Vec::new())
            },
            GetHashStep::Program => {
                proof {
                    crate::stack::lemma_stack_proof_wf(*stack);
                }
                let ghost pm = stack.proof_model().public_input;
                let mph = self.main_page_hash;
                let mut msg: Vec<Felt> = Vec::new();
                {
                    let p = stack.proof_view();
                    msg.push(p.public_input.log_n_steps);
                    msg.push(p.public_input.range_check_min);
                    msg.push(p.public_input.range_check_max);
                    msg.push(p.public_input.layout);
                }
                let ghost head = seq![pm.log_n_steps, pm.range_check_min, pm.range_check_max, pm.layout];
                proof {
                    assert(msg@ =~= head + pm.dynamic_params.subrange(0, 0));
                }
                let nd = stack.proof_view().public_input.dynamic_params.len();
                let mut i: usize = 0;
                while i < nd
                    invariant
                        *stack == *old(stack),
                        old(stack).wf(),
                        pm == old(stack).proof_model().public_input,
                        head == seq![pm.log_n_steps, pm.range_check_min, pm.range_check_max, pm.layout],
                        nd == pm.dynamic_params.len(),
                        i <= nd,
                        msg@ == head + pm.dynamic_params.subrange(0, i as int),
                    decreases nd - i,
                {
                    let f = stack.proof_view().public_input.dynamic_params[i];
                    msg.push(f);
                    proof {
                        assert(msg@ =~= head + pm.dynamic_params.subrange(0, i + 1));
                    }
                    i = i + 1;
                }
                let ghost head2 = head + pm.dynamic_params;
                proof {
                    assert(pm.dynamic_params.subrange(0, nd as int) =~= pm.dynamic_params);
                    assert(msg@ =~= head2 + seg_flat(pm.segments).subrange(0, 0));
                }
                let ns = stack.proof_view().public_input.segments.len();
                let mut i: usize = 0;
                while i < ns
                    invariant
                        *stack == *old(stack),
                        old(stack).wf(),
                        pm == old(stack).proof_model().public_input,
                        head2 == seq![pm.log_n_steps, pm.range_check_min, pm.range_check_max, pm.layout]
                            + pm.dynamic_params,
                        ns == pm.segments.len(),
                        i <= ns,
                        msg@ == head2 + seg_flat(pm.segments).subrange(0, 2 * i as int),
                    decreases ns - i,
                {
                    let sg = stack.proof_view().public_input.segments[i];
                    msg.push(sg.begin_addr);
                    msg.push(sg.stop_ptr);
                    proof {
                        assert(seg_flat(pm.segments)[2 * i as int] == sg.begin_addr);
                        assert(seg_flat(pm.segments)[2 * i as int + 1] == sg.stop_ptr);
                        assert(msg@ =~= head2 + seg_flat(pm.segments).subrange(0, 2 * (i + 1) as int));
                    }
                    i = i + 1;
                }
                let nh = stack.proof_view().public_input.continuous_page_headers.len();
                let k = stack.proof_view().public_input.main_page.len();
                {
                    let p = stack.proof_view();
                    msg.push(p.public_input.padding_addr);
                    msg.push(p.public_input.padding_value);
                }
                msg.push(Felt { v: (nh as u64) + 1 });
                msg.push(Felt { v: k as u64 });
                msg.push(mph);
                let ghost head3 = head2 + seg_flat(pm.segments) + seq![
                    pm.padding_addr,
                    pm.padding_value,
                    Felt { v: (pm.continuous_page_headers.len() + 1) as u64 },
                    Felt { v: pm.main_page.len() as u64 },
                    mph,
                ];
                proof {
                    assert(seg_flat(pm.segments).subrange(0, 2 * ns as int) =~= seg_flat(pm.segments));
                    assert(msg@ =~= head3 + header_flat(pm.continuous_page_headers).subrange(0, 0));
                }
                let mut i: usize = 0;
                while i < nh
                    invariant
                        *stack == *old(stack),
                        old(stack).wf(),
                        pm == old(stack).proof_model().public_input,
                        head3 == seq![pm.log_n_steps, pm.range_check_min, pm.range_check_max, pm.layout]
                            + pm.dynamic_params + seg_flat(pm.segments) + seq![
                            pm.padding_addr,
                            pm.padding_value,
                            Felt { v: (pm.continuous_page_headers.len() + 1) as u64 },
                            Felt { v: pm.main_page.len() as u64 },
                            mph,
                        ],
                        nh == pm.continuous_page_headers.len(),
                        i <= nh,
                        msg@ == head3 + header_flat(pm.continuous_page_headers).subrange(
                            0,
                            3 * i as int,
                        ),
                    decreases nh - i,
                {
                    let h = stack.proof_view().public_input.continuous_page_headers[i];
                    msg.push(h.start_address);
                    msg.push(h.size);
                    msg.push(h.hash);
                    proof {
                        assert(header_flat(pm.continuous_page_headers)[3 * i as int]
                            == h.start_address);
                        assert(header_flat(pm.continuous_page_headers)[3 * i as int + 1] == h.size);
                        assert(header_flat(pm.continuous_page_headers)[3 * i as int + 2] == h.hash);
                        assert(msg@ =~= head3 + header_flat(pm.continuous_page_headers).subrange(
                            0,
                            3 * (i + 1) as int,
                        ));
                    }
                    i = i + 1;
                }
                proof {
                    assert(header_flat(pm.continuous_page_headers).subrange(0, 3 * nh as int)
                        =~= header_flat(pm.continuous_page_headers));
                    assert(msg@ =~= second_hash_message(pm, mph));
                }
                match push_hash_batch(stack, &msg) {
                    Ok(()) => {},
                    Err(e) => {
                        proof {
                            lemma_region_cost_concat(
                                old(stack).data_records(),
                                hash_batch_records(second_hash_message(pm, mph)),
                            );
                        }
                        return Err(e);
                    },
                }
                let ml = msg.len();
                let child_len = (ml as u64) + ((ml % 2) as u64);
                proof {
                    assert(child_len as int == padded_len(
                        second_hash_message(pm, mph).len() as int,
                    ));
                }
                let child = HashMany::new(child_len);
                let mut children: Vec<Vec<u8>> = Vec::new();
                children.push(encode_task(&Task::HashMany(child)));
                self.step = GetHashStep::Done;
                proof {
                    assert(children@.map_values(|c: Vec<u8>| c@) =~= ss.children.map_values(
                        |t: Task| task_frame(t),
                    ));
                }
                Ok(children)
            },
            GetHashStep::Done => {
                proof {
                    assert(Seq::<Vec<u8>>::empty().map_values(|c: Vec<u8>| c@) =~= Seq::<
                        Task,
                    >::empty().map_values(|t: Task| task_frame(t)));
                }
                Ok(Vec::new())
            },
        }
    }

    pub fn is_finished(&self) -> (r: bool)
        ensures
            r == (self.step == GetHashStep::Done),
    {
        match self.step {
            GetHashStep::Done => true,
            _ => false,
        }
    }
}

} // verus!
