//! The many-to-one hash behind all commitments: a fixed three-element-state
//! permutation, absorbing inputs two at a time (block arity 2).

use vstd::prelude::*;
use crate::felt::{Felt, FIELD_MODULUS};

verus! {

/// Round constants of the permutation, reduced field representatives.
pub const ROUND_KEY_0: u64 = 0x9e37_79b9_7f4a_7c15;
pub const ROUND_KEY_1: u64 = 0x3c6e_f373_fe94_f829;
pub const ROUND_KEY_2: u64 = 0xdaa6_6d2d_7ddf_743e;
pub const ROUND_KEY_3: u64 = 0x78dd_e6e7_fd29_f052;
pub const ROUND_KEY_4: u64 = 0x1715_60a2_7c74_6c66;
pub const ROUND_KEY_5: u64 = 0xb54c_da5b_fbbe_e87b;
pub const ROUND_KEY_6: u64 = 0x5384_5416_7b09_648f;
pub const ROUND_KEY_7: u64 = 0xf1bb_cdcf_fa53_e0a4;
pub const ROUND_KEY_8: u64 = 0x8ff3_478a_799e_5cb8;

/// Field addition on canonical representatives, at the specification level.
pub open spec fn f_add(a: Felt, b: Felt) -> Felt {
    Felt { v: ((a.v + b.v) % (FIELD_MODULUS as int)) as u64 }
}

/// Field multiplication on canonical representatives, at the specification level.
pub open spec fn f_mul(a: Felt, b: Felt) -> Felt {
    Felt { v: ((a.v * b.v) % (FIELD_MODULUS as int)) as u64 }
}

pub open spec fn f_cube(a: Felt) -> Felt {
    f_mul(f_mul(a, a), a)
}

/// One permutation round: each lane is cubed, shifted by the next lane and a
/// round constant.
pub open spec fn round_spec(s: (Felt, Felt, Felt), ka: u64, kb: u64, kc: u64) -> (Felt, Felt, Felt) {
    (
        f_add(f_add(f_cube(s.0), s.1), Felt { v: ka }),
        f_add(f_add(f_cube(s.1), s.2), Felt { v: kb }),
        f_add(f_add(f_cube(s.2), s.0), Felt { v: kc }),
    )
}

/// The full three-round permutation of the hash state.
pub open spec fn permute_spec(s: (Felt, Felt, Felt)) -> (Felt, Felt, Felt) {
    round_spec(
        round_spec(round_spec(s, ROUND_KEY_0, ROUND_KEY_1, ROUND_KEY_2), ROUND_KEY_3, ROUND_KEY_4, ROUND_KEY_5),
        ROUND_KEY_6,
        ROUND_KEY_7,
        ROUND_KEY_8,
    )
}

/// Absorbing one input pair: the pair is added onto the first two lanes and
/// the state is permuted.
pub open spec fn absorb_spec(s: (Felt, Felt, Felt), x: Felt, y: Felt) -> (Felt, Felt, Felt) {
    permute_spec((f_add(s.0, x), f_add(s.1, y), s.2))
}

/// The sponge: a state folded over an input sequence, two elements per block.
pub open spec fn sponge_spec(s: (Felt, Felt, Felt), inputs: Seq<Felt>) -> (Felt, Felt, Felt)
    decreases inputs.len(),
{
    if inputs.len() < 2 {
        s
    } else {
        sponge_spec(absorb_spec(s, inputs[0], inputs[1]), inputs.skip(2))
    }
}

/// The hash of an (even-length) input sequence: the sponge run from the
/// all-zero state; the digest is the first lane.
pub open spec fn hash_many_spec(inputs: Seq<Felt>) -> Felt {
    sponge_spec((Felt { v: 0 }, Felt { v: 0 }, Felt { v: 0 }), inputs).0
}

pub open spec fn state_wf(s: (Felt, Felt, Felt)) -> bool {
    s.0.wf() && s.1.wf() && s.2.wf()
}

fn round(s: (Felt, Felt, Felt), ka: u64, kb: u64, kc: u64) -> (r: (Felt, Felt, Felt))
    requires
        state_wf(s),
        ka < FIELD_MODULUS,
        kb < FIELD_MODULUS,
        kc < FIELD_MODULUS,
    ensures
        r == round_spec(s, ka, kb, kc),
        state_wf(r),
{
    let (a, b, c) = s;
    let ra = a.mul(a).mul(a).add(b).add(Felt { v: ka });
    let rb = b.mul(b).mul(b).add(c).add(Felt { v: kb });
    let rc = c.mul(c).mul(c).add(a).add(Felt { v: kc });
    (ra, rb, rc)
}

/// The executable permutation, equal to its specification.
pub fn permute(s: (Felt, Felt, Felt)) -> (r: (Felt, Felt, Felt))
    requires
        state_wf(s),
    ensures
        r == permute_spec(s),
        state_wf(r),
{
    let s1 = round(s, ROUND_KEY_0, ROUND_KEY_1, ROUND_KEY_2);
    let s2 = round(s1, ROUND_KEY_3, ROUND_KEY_4, ROUND_KEY_5);
    round(s2, ROUND_KEY_6, ROUND_KEY_7, ROUND_KEY_8)
}

/// Absorbs one input pair into the state.
pub fn absorb(s: (Felt, Felt, Felt), x: Felt, y: Felt) -> (r: (Felt, Felt, Felt))
    requires
        state_wf(s),
        x.wf(),
        y.wf(),
    ensures
        r == absorb_spec(s, x, y),
        state_wf(r),
{
    permute((s.0.add(x), s.1.add(y), s.2))
}

} // verus!
