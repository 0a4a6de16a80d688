//! The bidirectional stack: one persisted store with two independent LIFO
//! ends — a data end for values exchanged between tasks, and a task end for
//! pending task frames — plus the validated proof the session runs on.
//!
//! Neither region grows past its configured bound: a push that would exceed
//! it fails with `CapacityExceeded`, never truncates.

use vstd::prelude::*;
use crate::errors::EngineError;
use crate::stark_proof::{Proof, ProofModel};

verus! {

/// The largest capacity a region may be configured with; keeps all byte
/// accounting far away from machine-word overflow.
pub const MAX_REGION_CAPACITY: usize = 0x1000_0000;

/// What a record costs inside a region: its bytes plus the four-byte length
/// prefix it is persisted with.
pub open spec fn region_cost(rs: Seq<Seq<u8>>) -> int
    decreases rs.len(),
{
    if rs.len() == 0 {
        0
    } else {
        region_cost(rs.drop_last()) + 4 + rs.last().len()
    }
}

pub struct Stack {
    data: Vec<Vec<u8>>,
    tasks: Vec<Vec<u8>>,
    proof: Proof,
    data_bytes: usize,
    task_bytes: usize,
    data_capacity: usize,
    task_capacity: usize,
}

impl Stack {
    /// The data region, top record last.
    pub closed spec fn data_records(self) -> Seq<Seq<u8>> {
        self.data@.map_values(|r: Vec<u8>| r@)
    }

    /// The task region, top frame last.
    pub closed spec fn task_frames(self) -> Seq<Seq<u8>> {
        self.tasks@.map_values(|r: Vec<u8>| r@)
    }

    pub closed spec fn proof_model(self) -> ProofModel {
        self.proof@
    }

    pub closed spec fn data_cap(self) -> int {
        self.data_capacity as int
    }

    pub closed spec fn task_cap(self) -> int {
        self.task_capacity as int
    }

    pub closed spec fn wf(self) -> bool {
        &&& self.data_bytes as int == region_cost(self.data_records())
        &&& self.task_bytes as int == region_cost(self.task_frames())
        &&& self.data_bytes <= self.data_capacity <= MAX_REGION_CAPACITY
        &&& self.task_bytes <= self.task_capacity <= MAX_REGION_CAPACITY
        &&& self.proof@.wf()
    }

    /// A fresh session stack over a validated proof, with empty regions.
    pub fn new(proof: Proof, data_capacity: usize, task_capacity: usize) -> (s: Stack)
        requires
            proof.wf(),
            data_capacity <= MAX_REGION_CAPACITY,
            task_capacity <= MAX_REGION_CAPACITY,
        ensures
            s.wf(),
            s.data_records() =~= Seq::<Seq<u8>>::empty(),
            s.task_frames() =~= Seq::<Seq<u8>>::empty(),
            s.proof_model() == proof@,
            s.data_cap() == data_capacity,
            s.task_cap() == task_capacity,
    {
        let s = Stack {
            data: Vec::new(),
            tasks: Vec::new(),
            proof,
            data_bytes: 0,
            task_bytes: 0,
            data_capacity,
            task_capacity,
        };
        proof {
            assert(s.data_records() =~= Seq::<Seq<u8>>::empty());
            assert(s.task_frames() =~= Seq::<Seq<u8>>::empty());
        }
        s
    }

    /// Read-only view of the ingested proof.
    pub fn proof_view(&self) -> (p: &Proof)
        ensures
            p@ == self.proof_model(),
    {
        &self.proof
    }

    pub fn data_record_at(&self, i: usize) -> (r: &Vec<u8>)
        requires
            i < self.data_records().len(),
        ensures
            r@ == self.data_records()[i as int],
    {
        &self.data[i]
    }

    pub fn task_frame_at(&self, i: usize) -> (r: &Vec<u8>)
        requires
            i < self.task_frames().len(),
        ensures
            r@ == self.task_frames()[i as int],
    {
        &self.tasks[i]
    }

    pub fn data_len(&self) -> (n: usize)
        ensures
            n == self.data_records().len(),
    {
        self.data.len()
    }

    /// Bytes the data region currently accounts for.
    pub fn data_bytes_used(&self) -> (n: usize)
        requires
            self.wf(),
        ensures
            n == region_cost(self.data_records()),
    {
        self.data_bytes
    }

    pub fn data_capacity(&self) -> (n: usize)
        ensures
            n == self.data_cap(),
    {
        self.data_capacity
    }

    /// Appends a record at the data end.  Fails, leaving the stack unchanged,
    /// exactly when the record would push the region past its bound.
    pub fn push_data(&mut self, rec: Vec<u8>) -> (r: Result<(), EngineError>)
        requires
            old(self).wf(),
        ensures
            final(self).wf(),
            final(self).proof_model() == old(self).proof_model(),
            final(self).task_frames() == old(self).task_frames(),
            final(self).data_cap() == old(self).data_cap(),
            final(self).task_cap() == old(self).task_cap(),
            match r {
                Ok(()) => region_cost(old(self).data_records()) + 4 + rec@.len() <= old(self).data_cap() && final(self).data_records() == old(self).data_records().push(rec@),
                Err(e) => e == EngineError::CapacityExceeded && region_cost(
                    old(self).data_records(),
                ) + 4 + rec@.len() > old(self).data_cap() && final(self).data_records() == old(self).data_records(),
            },
    {
        let remaining = self.data_capacity - self.data_bytes;
        if remaining < 4 || rec.len() > remaining - 4 {
            return Err(EngineError::CapacityExceeded);
        }
        self.data_bytes = self.data_bytes + 4 + rec.len();
        let ghost prev = self.data_records();
        let ghost recv = rec@;
        self.data.push(rec);
        proof {
            assert(self.data_records() =~= prev.push(recv));
            assert(self.data_records().drop_last() =~= prev);
        }
        Ok(())
    }

    /// The top data record, without removing it.
    pub fn peek_data(&self) -> (r: Result<&Vec<u8>, EngineError>)
        ensures
            match r {
                Ok(rec) => self.data_records().len() > 0 && rec@ == self.data_records().last(),
                Err(e) => e == EngineError::Empty && self.data_records().len() == 0,
            },
    {
        if self.data.len() == 0 {
            Err(EngineError::Empty)
        } else {
            Ok(&self.data[self.data.len() - 1])
        }
    }

    /// Removes and returns the top data record.
    pub fn pop_data(&mut self) -> (r: Result<Vec<u8>, EngineError>)
        requires
            old(self).wf(),
        ensures
            final(self).wf(),
            final(self).proof_model() == old(self).proof_model(),
            final(self).task_frames() == old(self).task_frames(),
            final(self).data_cap() == old(self).data_cap(),
            final(self).task_cap() == old(self).task_cap(),
            match r {
                Ok(rec) => old(self).data_records().len() > 0 && rec@ == old(self).data_records().last() && final(self).data_records() == old(self).data_records().drop_last(),
                Err(e) => e == EngineError::Empty && old(self).data_records().len() == 0 && *final(self) == *old(self),
            },
    {
        if self.data.len() == 0 {
            return Err(EngineError::Empty);
        }
        let ghost prev = self.data_records();
        let rec = self.data.pop().unwrap();
        proof {
            assert(self.data_records() =~= prev.drop_last());
            lemma_region_cost_nonneg(prev.drop_last());
            assert(region_cost(prev) == region_cost(prev.drop_last()) + 4 + prev.last().len());
        }
        self.data_bytes = self.data_bytes - 4 - rec.len();
        Ok(rec)
    }

    pub fn is_task_region_empty(&self) -> (r: bool)
        ensures
            r == (self.task_frames().len() == 0),
    {
        self.tasks.len() == 0
    }

    pub fn task_len(&self) -> (n: usize)
        ensures
            n == self.task_frames().len(),
    {
        self.tasks.len()
    }

    /// Appends a task frame at the task end; same failure discipline as
    /// `push_data`.
    pub fn push_task(&mut self, frame: Vec<u8>) -> (r: Result<(), EngineError>)
        requires
            old(self).wf(),
        ensures
            final(self).wf(),
            final(self).proof_model() == old(self).proof_model(),
            final(self).data_records() == old(self).data_records(),
            final(self).data_cap() == old(self).data_cap(),
            final(self).task_cap() == old(self).task_cap(),
            match r {
                Ok(()) => region_cost(old(self).task_frames()) + 4 + frame@.len() <= old(self).task_cap() && final(self).task_frames() == old(self).task_frames().push(frame@),
                Err(e) => e == EngineError::CapacityExceeded && region_cost(
                    old(self).task_frames(),
                ) + 4 + frame@.len() > old(self).task_cap() && final(self).task_frames() == old(self).task_frames(),
            },
    {
        let remaining = self.task_capacity - self.task_bytes;
        if remaining < 4 || frame.len() > remaining - 4 {
            return Err(EngineError::CapacityExceeded);
        }
        self.task_bytes = self.task_bytes + 4 + frame.len();
        let ghost prev = self.task_frames();
        let ghost fv = frame@;
        self.tasks.push(frame);
        proof {
            assert(self.task_frames() =~= prev.push(fv));
            assert(self.task_frames().drop_last() =~= prev);
        }
        Ok(())
    }

    /// Removes and returns the top task frame.
    pub fn pop_task(&mut self) -> (r: Result<Vec<u8>, EngineError>)
        requires
            old(self).wf(),
        ensures
            final(self).wf(),
            final(self).proof_model() == old(self).proof_model(),
            final(self).data_records() == old(self).data_records(),
            final(self).data_cap() == old(self).data_cap(),
            final(self).task_cap() == old(self).task_cap(),
            match r {
                Ok(frame) => old(self).task_frames().len() > 0 && frame@ == old(self).task_frames().last() && final(self).task_frames() == old(self).task_frames().drop_last(),
                Err(e) => e == EngineError::Empty && old(self).task_frames().len() == 0 && *final(self) == *old(self),
            },
    {
        if self.tasks.len() == 0 {
            return Err(EngineError::Empty);
        }
        let ghost prev = self.task_frames();
        let frame = self.tasks.pop().unwrap();
        proof {
            assert(self.task_frames() =~= prev.drop_last());
            lemma_region_cost_nonneg(prev.drop_last());
            assert(region_cost(prev) == region_cost(prev.drop_last()) + 4 + prev.last().len());
        }
        self.task_bytes = self.task_bytes - 4 - frame.len();
        Ok(frame)
    }
}

/// Costs add over concatenation.
pub proof fn lemma_region_cost_concat(a: Seq<Seq<u8>>, b: Seq<Seq<u8>>)
    ensures
        region_cost(a + b) == region_cost(a) + region_cost(b),
    decreases b.len(),
{
    if b.len() == 0 {
        assert(a + b =~= a);
    } else {
        lemma_region_cost_concat(a, b.drop_last());
        assert((a + b).drop_last() =~= a + b.drop_last());
        assert((a + b).last() == b.last());
    }
}

/// A region of uniform-width records costs its record count times one
/// record's cost.
pub proof fn lemma_region_cost_uniform(rs: Seq<Seq<u8>>, w: int)
    requires
        forall|i: int| 0 <= i < rs.len() ==> (#[trigger] rs[i]).len() == w,
    ensures
        region_cost(rs) == rs.len() * (4 + w),
    decreases rs.len(),
{
    if rs.len() == 0 {
        assert(rs.len() * (4 + w) == 0);
    } else {
        assert(forall|i: int|
            0 <= i < rs.drop_last().len() ==> (#[trigger] rs.drop_last()[i]).len() == w);
        lemma_region_cost_uniform(rs.drop_last(), w);
        assert(rs.len() * (4 + w) == (rs.len() - 1) * (4 + w) + (4 + w)) by (nonlinear_arith);
    }
}

/// A prefix never costs more than the whole region.
pub proof fn lemma_region_cost_prefix(rs: Seq<Seq<u8>>, j: int)
    requires
        0 <= j <= rs.len(),
    ensures
        region_cost(rs.subrange(0, j)) <= region_cost(rs),
    decreases rs.len() - j,
{
    if j < rs.len() {
        lemma_region_cost_prefix(rs, j + 1);
        assert(rs.subrange(0, j + 1).drop_last() =~= rs.subrange(0, j));
        lemma_region_cost_nonneg(rs.subrange(0, j + 1));
    } else {
        assert(rs.subrange(0, j) =~= rs);
    }
}

/// A well-formed stack keeps each region's cost within its configured bound.
pub proof fn lemma_stack_costs(s: Stack)
    requires
        s.wf(),
    ensures
        region_cost(s.data_records()) <= s.data_cap() <= MAX_REGION_CAPACITY,
        region_cost(s.task_frames()) <= s.task_cap() <= MAX_REGION_CAPACITY,
{
}

/// A well-formed stack always carries a well-formed proof.
pub proof fn lemma_stack_proof_wf(s: Stack)
    requires
        s.wf(),
    ensures
        s.proof_model().wf(),
{
}

/// The cost of a region never drops below what any one record costs; popping
/// keeps the byte accounting within machine bounds.
pub proof fn lemma_region_cost_nonneg(rs: Seq<Seq<u8>>)
    ensures
        region_cost(rs) >= 0,
        rs.len() > 0 ==> region_cost(rs) >= 4 + rs.last().len(),
    decreases rs.len(),
{
    if rs.len() > 0 {
        lemma_region_cost_nonneg(rs.drop_last());
    }
}

/// Every record of a region is within the region's total cost.
pub proof fn lemma_region_record_bound(rs: Seq<Seq<u8>>, i: int)
    requires
        0 <= i < rs.len(),
    ensures
        region_cost(rs) >= 4 + rs[i].len(),
    decreases rs.len(),
{
    lemma_region_cost_nonneg(rs);
    if i < rs.len() - 1 {
        lemma_region_cost_nonneg(rs.drop_last());
        lemma_region_record_bound(rs.drop_last(), i);
    }
}

/// Round-trip law of the data end: a pop right after a push returns exactly
/// the pushed record and restores the region — the composition of
/// `push_data`'s and `pop_data`'s contracts.
pub proof fn lemma_push_pop_roundtrip(records: Seq<Seq<u8>>, b: Seq<u8>)
    ensures
        records.push(b).last() == b,
        records.push(b).drop_last() == records,
{
    assert(records.push(b).drop_last() =~= records);
}

/// LIFO law of the data end: after records `pushed` go on top of a region,
/// the record at depth `i` from the top — the one the `i`-th pop returns —
/// is `pushed` read backwards.
pub proof fn lemma_lifo_order(records: Seq<Seq<u8>>, pushed: Seq<Seq<u8>>, i: int)
    requires
        0 <= i < pushed.len(),
    ensures
        (records + pushed)[(records + pushed).len() - 1 - i] == pushed[pushed.len() - 1 - i],
{
}

} // verus!
