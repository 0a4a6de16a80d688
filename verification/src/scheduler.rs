//! The driver: one tick pops the top task frame, removes it if its task is
//! finished, and otherwise advances the task by exactly one step, writing the
//! updated frame back and pushing the spawned children after it.  Because the
//! task region is LIFO, the last child spawned runs next, and a parent only
//! resumes after everything it spawned has finished and been removed.

use vstd::prelude::*;
use crate::codec::{parse_proof, parse_proof_spec};
use crate::errors::EngineError;
use crate::stack::{
    lemma_region_cost_concat, lemma_region_cost_nonneg, lemma_region_cost_prefix, region_cost,
    Stack, MAX_REGION_CAPACITY,
};
use crate::tasks::{
    children_frames, decode_frame_spec, decode_task, encode_task, lemma_decode_wf,
    lemma_step_fail_kind, task_finished, task_frame, task_step_spec, Task,
};

verus! {

/// Initializes a session: parses and validates raw proof bytes — rejecting a
/// malformed layout right here, never later — and builds an empty stack that
/// owns the checked proof.
pub fn ingest(proof_bytes: &Vec<u8>, data_capacity: usize, task_capacity: usize) -> (r: Result<
    Stack,
    EngineError,
>)
    requires
        data_capacity <= MAX_REGION_CAPACITY,
        task_capacity <= MAX_REGION_CAPACITY,
    ensures
        match r {
            Ok(st) => st.wf() && parse_proof_spec(proof_bytes@) == Some(st.proof_model())
                && st.data_records().len() == 0 && st.task_frames().len() == 0 && st.data_cap()
                == data_capacity && st.task_cap() == task_capacity,
            Err(e) => e == EngineError::MalformedProof && parse_proof_spec(proof_bytes@) is None,
        },
{
    let p = parse_proof(proof_bytes)?;
    Ok(Stack::new(p, data_capacity, task_capacity))
}

/// Seeds the task region with a root task.
pub fn push_root_task(stack: &mut Stack, t: &Task) -> (r: Result<(), EngineError>)
    requires
        old(stack).wf(),
    ensures
        final(stack).wf(),
        final(stack).proof_model() == old(stack).proof_model(),
        final(stack).data_records() == old(stack).data_records(),
        final(stack).data_cap() == old(stack).data_cap(),
        final(stack).task_cap() == old(stack).task_cap(),
        match r {
            Ok(()) => final(stack).task_frames() == old(stack).task_frames().push(task_frame(*t)),
            Err(e) => e == EngineError::CapacityExceeded && region_cost(
                old(stack).task_frames(),
            ) + 4 + task_frame(*t).len() > old(stack).task_cap() && final(stack).task_frames()
                == old(stack).task_frames(),
        },
{
    stack.push_task(encode_task(t))
}

/// Completion: the task region has drained.
pub fn is_done(stack: &Stack) -> (r: bool)
    ensures
        r == (stack.task_frames().len() == 0),
{
    stack.is_task_region_empty()
}

/// Runs exactly one scheduler step and reports whether the task region is now
/// empty.  An empty region is completion; a frame that no task kind decodes
/// is the unknown-tag outcome; a finished task is removed; any other task is
/// advanced one step, its frame updated in place and its children stacked
/// after it in spawn order, so the last child runs first.
pub fn tick(stack: &mut Stack) -> (r: Result<bool, EngineError>)
    requires
        old(stack).wf(),
    ensures
        final(stack).wf(),
        final(stack).proof_model() == old(stack).proof_model(),
        final(stack).data_cap() == old(stack).data_cap(),
        final(stack).task_cap() == old(stack).task_cap(),
        ({
            let frames = old(stack).task_frames();
            if frames.len() == 0 {
                r == Ok::<bool, EngineError>(true) && *final(stack) == *old(stack)
            } else {
                match decode_frame_spec(frames.last()) {
                    None => r == Err::<bool, EngineError>(EngineError::UnknownTaskTag)
                        && final(stack).task_frames() == frames.drop_last()
                        && final(stack).data_records() == old(stack).data_records(),
                    Some(t) => if task_finished(t) {
                        r == Ok::<bool, EngineError>(frames.len() == 1)
                            && final(stack).task_frames() == frames.drop_last()
                            && final(stack).data_records() == old(stack).data_records()
                    } else {
                        let ss = task_step_spec(
                            t,
                            old(stack).data_records(),
                            old(stack).proof_model(),
                        );
                        let full = frames.drop_last().push(task_frame(ss.task))
                            + ss.children.map_values(|c: Task| task_frame(c));
                        match ss.fail {
                            Some(e) => r == Err::<bool, EngineError>(e)
                                && final(stack).task_frames() == frames.drop_last()
                                && final(stack).data_records() == old(stack).data_records(),
                            None => match r {
                                Ok(done) => final(stack).task_frames() == full
                                    && final(stack).data_records() == ss.data && done == false,
                                Err(e) => e == EngineError::CapacityExceeded && (
                                (region_cost(ss.data) > old(stack).data_cap()
                                    && final(stack).data_records() == old(stack).data_records()
                                    && final(stack).task_frames() == frames.drop_last()) || (
                                region_cost(full) > old(stack).task_cap()
                                    && final(stack).data_records() == ss.data && (final(stack).task_frames() == frames.drop_last() || exists|j: int|
                                    0 <= j <= ss.children.len() && final(stack).task_frames()
                                        == frames.drop_last().push(task_frame(ss.task)) + (
                                    #[trigger] children_frames(ss.children).subrange(0, j))))),
                            },
                        }
                    },
                }
            }
        }),
{
    if stack.is_task_region_empty() {
        return Ok(true);
    }
    let frame = stack.pop_task()?;
    let decoded = decode_task(&frame);
    let mut t = match decoded {
        Some(t) => t,
        None => {
            return Err(EngineError::UnknownTaskTag);
        },
    };
    if t.is_finished() {
        return Ok(stack.is_task_region_empty());
    }
    proof {
        lemma_decode_wf(frame@);
    }
    let ghost t0 = t;
    let ghost ss = task_step_spec(t0, stack.data_records(), stack.proof_model());
    let mut children = t.execute(stack)?;
    let ghost cviews = children@.map_values(|c: Vec<u8>| c@);
    match stack.push_task(encode_task(&t)) {
        Ok(()) => {},
        Err(e) => {
            proof {
                let pf = task_frame(ss.task);
                let childframes = ss.children.map_values(|c: Task| task_frame(c));
                let withparent = old(stack).task_frames().drop_last().push(pf);
                assert(withparent.drop_last() =~= old(stack).task_frames().drop_last());
                lemma_region_cost_concat(withparent, childframes);
                lemma_region_cost_nonneg(childframes);
            }
            return Err(e);
        },
    }
    let ghost mid_frames = stack.task_frames();
    let ghost mid_data = stack.data_records();
    let mut i: usize = 0;
    let n = children.len();
    while i < n
        invariant
            stack.wf(),
            stack.proof_model() == old(stack).proof_model(),
            stack.data_cap() == old(stack).data_cap(),
            stack.task_cap() == old(stack).task_cap(),
            stack.data_records() == mid_data,
            old(stack).task_frames().len() > 0,
            decode_frame_spec(old(stack).task_frames().last()) == Some(t0),
            !task_finished(t0),
            ss == task_step_spec(t0, old(stack).data_records(), old(stack).proof_model()),
            ss.fail is None,
            mid_frames == old(stack).task_frames().drop_last().push(task_frame(ss.task)),
            mid_data == ss.data,
            cviews == ss.children.map_values(|c: Task| task_frame(c)),
            i <= n,
            n == cviews.len(),
            children@.len() == n - i,
            forall|k: int| 0 <= k < n - i ==> children@[k]@ == cviews[k + i],
            stack.task_frames() == mid_frames + cviews.subrange(0, i as int),
        decreases n - i,
    {
        let c = children.remove(0);
        proof {
            assert(c@ == cviews[i as int]);
        }
        match stack.push_task(c) {
            Ok(()) => {},
            Err(e) => {
                proof {
                    assert(cviews.subrange(0, i + 1).drop_last() =~= cviews.subrange(0, i as int));
                    assert(cviews.subrange(0, i + 1).last() == cviews[i as int]);
                    lemma_region_cost_concat(mid_frames, cviews.subrange(0, i as int));
                    lemma_region_cost_concat(mid_frames, cviews.subrange(0, i + 1));
                    lemma_region_cost_concat(mid_frames, cviews);
                    lemma_region_cost_prefix(cviews, i + 1);
                    assert(stack.task_frames() == old(stack).task_frames().drop_last().push(
                        task_frame(ss.task),
                    ) + children_frames(ss.children).subrange(0, i as int));
                }
                return Err(e);
            },
        }
        i = i + 1;
        proof {
            assert(stack.task_frames() =~= mid_frames + cviews.subrange(0, i as int));
        }
    }
    proof {
        assert(stack.task_frames() =~= mid_frames + cviews);
    }
    Ok(false)
}

/// Drives the scheduler for at most `max_ticks` ticks — the mechanism by
/// which a caller on a compute budget batches work; results do not depend on
/// the batching, since every tick is a function of the stack alone.  Returns
/// whether verification completed within the budget: a run that reports
/// completion has drained the task region, and one that does not has either
/// spent its whole nonzero budget with work still pending or was given none.
pub fn run(stack: &mut Stack, max_ticks: u64) -> (r: Result<bool, EngineError>)
    requires
        old(stack).wf(),
    ensures
        final(stack).wf(),
        final(stack).proof_model() == old(stack).proof_model(),
        final(stack).data_cap() == old(stack).data_cap(),
        final(stack).task_cap() == old(stack).task_cap(),
        match r {
            Ok(done) => (done ==> final(stack).task_frames().len() == 0) && (!done ==> final(stack).task_frames().len() > 0 || (max_ticks == 0 && *final(stack) == *old(stack))),
            Err(e) => e != EngineError::MalformedProof,
        },
{
    let mut i: u64 = 0;
    while i < max_ticks
        invariant
            stack.wf(),
            stack.proof_model() == old(stack).proof_model(),
            stack.data_cap() == old(stack).data_cap(),
            stack.task_cap() == old(stack).task_cap(),
            i == 0 ==> *stack == *old(stack),
            i > 0 ==> stack.task_frames().len() > 0,
            i <= max_ticks,
        decreases max_ticks - i,
    {
        let ghost pre = *stack;
        let done = match tick(stack) {
            Ok(d) => d,
            Err(e) => {
                proof {
                    if pre.task_frames().len() > 0 {
                        match decode_frame_spec(pre.task_frames().last()) {
                            Some(t) => {
                                lemma_step_fail_kind(t, pre.data_records(), pre.proof_model());
                            },
                            None => {},
                        }
                    }
                }
                return Err(e);
            },
        };
        if done {
            return Ok(true);
        }
        i = i + 1;
    }
    Ok(false)
}

} // verus!
