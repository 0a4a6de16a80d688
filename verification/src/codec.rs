//! The wire formats: proof bytes (parsed and validated once, at ingestion)
//! and the checkpoint that persists a session between driver calls.
//!
//! A proof is five big-endian record counts followed by all field elements in
//! fixed order, eight bytes each: main-page entries (address, value),
//! segments (begin, stop), continuous-page headers (start, size, hash),
//! dynamic layout parameters, commitments, and eight fixed scalars.

use vstd::prelude::*;
use vstd::arithmetic::div_mod::lemma_fundamental_div_mod_converse;
use crate::errors::EngineError;
use crate::felt::{
    be_bytes4, be_bytes8, be_value, lemma_be_bytes4_value, lemma_be_bytes8_value,
    lemma_be_value_bound, lemma_pow256_8, pow256, read_be_at, Felt, FIELD_MODULUS,
};
use crate::stack::Stack;
use crate::stark_proof::{
    PageEntry, PageHeader, Proof, ProofModel, PublicInput, PublicInputModel, Segment,
};
use crate::tasks::get_hash::{header_flat, seg_flat};

verus! {

/// Main-page entries as wired: address first, then value.
pub open spec fn wire_entries(s: Seq<PageEntry>) -> Seq<Felt> {
    Seq::new(
        (2 * s.len()) as nat,
        |j: int| if j % 2 == 0 {
            s[j / 2].address
        } else {
            s[j / 2].value
        },
    )
}

/// Every field element of a proof, in wire order.
pub open spec fn proof_felts(p: ProofModel) -> Seq<Felt> {
    wire_entries(p.public_input.main_page) + seg_flat(p.public_input.segments) + header_flat(
        p.public_input.continuous_page_headers,
    ) + p.public_input.dynamic_params + p.commitments + seq![
        p.public_input.log_n_steps,
        p.public_input.range_check_min,
        p.public_input.range_check_max,
        p.public_input.layout,
        p.public_input.padding_addr,
        p.public_input.padding_value,
        p.claimed_composition,
        p.declared_hash,
    ]
}

pub open spec fn enc_felts(fs: Seq<Felt>) -> Seq<u8> {
    Seq::new((8 * fs.len()) as nat, |k: int| be_bytes8(fs[k / 8].v)[k % 8])
}

pub open spec fn proof_header(p: ProofModel) -> Seq<u8> {
    be_bytes4(p.public_input.main_page.len() as u32) + be_bytes4(
        p.public_input.segments.len() as u32,
    ) + be_bytes4(p.public_input.continuous_page_headers.len() as u32) + be_bytes4(
        p.public_input.dynamic_params.len() as u32,
    ) + be_bytes4(p.commitments.len() as u32)
}

pub open spec fn encode_proof_spec(p: ProofModel) -> Seq<u8> {
    proof_header(p) + enc_felts(proof_felts(p))
}

pub open spec fn felt_at(b: Seq<u8>, off: int) -> Felt {
    Felt { v: be_value(b.subrange(off, off + 8)) as u64 }
}

pub open spec fn felts_canonical(b: Seq<u8>, off: int, n: int) -> bool {
    forall|i: int|
        0 <= i < n ==> 0 <= #[trigger] be_value(b.subrange(off + 8 * i, off + 8 * i + 8))
            < FIELD_MODULUS
}

pub open spec fn parse_body(b: Seq<u8>, m: int, s: int, h: int, d: int, c: int) -> ProofModel {
    let segbase = 20 + 16 * m;
    let hdrbase = segbase + 16 * s;
    let dynbase = hdrbase + 24 * h;
    let commbase = dynbase + 8 * d;
    let fixbase = commbase + 8 * c;
    ProofModel {
        public_input: PublicInputModel {
            log_n_steps: felt_at(b, fixbase),
            range_check_min: felt_at(b, fixbase + 8),
            range_check_max: felt_at(b, fixbase + 16),
            layout: felt_at(b, fixbase + 24),
            dynamic_params: Seq::new(d as nat, |i: int| felt_at(b, dynbase + 8 * i)),
            segments: Seq::new(
                s as nat,
                |i: int|
                    Segment {
                        begin_addr: felt_at(b, segbase + 16 * i),
                        stop_ptr: felt_at(b, segbase + 16 * i + 8),
                    },
            ),
            padding_addr: felt_at(b, fixbase + 32),
            padding_value: felt_at(b, fixbase + 40),
            main_page: Seq::new(
                m as nat,
                |i: int|
                    PageEntry {
                        address: felt_at(b, 20 + 16 * i),
                        value: felt_at(b, 20 + 16 * i + 8),
                    },
            ),
            continuous_page_headers: Seq::new(
                h as nat,
                |i: int|
                    PageHeader {
                        start_address: felt_at(b, hdrbase + 24 * i),
                        size: felt_at(b, hdrbase + 24 * i + 8),
                        hash: felt_at(b, hdrbase + 24 * i + 16),
                    },
            ),
        },
        commitments: Seq::new(c as nat, |i: int| felt_at(b, commbase + 8 * i)),
        claimed_composition: felt_at(b, fixbase + 48),
        declared_hash: felt_at(b, fixbase + 56),
    }
}

/// The parser: accepts exactly the byte strings whose counts, total length
/// and field elements are a canonical wire image of some proof.
pub open spec fn parse_proof_spec(b: Seq<u8>) -> Option<ProofModel> {
    if b.len() < 20 {
        None
    } else {
        let m = be_value(b.subrange(0, 4));
        let s = be_value(b.subrange(4, 8));
        let h = be_value(b.subrange(8, 12));
        let d = be_value(b.subrange(12, 16));
        let c = be_value(b.subrange(16, 20));
        let nf = 2 * m + 2 * s + 3 * h + d + c + 8;
        if b.len() != 20 + 8 * nf {
            None
        } else if !felts_canonical(b, 20, nf) {
            None
        } else {
            Some(parse_body(b, m, s, h, d, c))
        }
    }
}

proof fn lemma_enc_felts_slice(fs: Seq<Felt>, i: int)
    requires
        0 <= i < fs.len(),
    ensures
        enc_felts(fs).subrange(8 * i, 8 * i + 8) == be_bytes8(fs[i].v),
{
    assert forall|j: int| 0 <= j < 8 implies enc_felts(fs).subrange(8 * i, 8 * i + 8)[j]
        == be_bytes8(fs[i].v)[j] by {
        let k = 8 * i + j;
        assert(k / 8 == i && k % 8 == j) by {
            lemma_fundamental_div_mod_converse(k, 8, i, j);
        }
    }
    assert(enc_felts(fs).subrange(8 * i, 8 * i + 8) =~= be_bytes8(fs[i].v));
}

/// Wire round trip: parsing the encoding of any well-formed proof yields
/// exactly that proof.
#[verifier::rlimit(60)]
pub proof fn lemma_proof_roundtrip(p: ProofModel)
    requires
        p.wf(),
    ensures
        parse_proof_spec(encode_proof_spec(p)) == Some(p),
{
    let b = encode_proof_spec(p);
    let fs = proof_felts(p);
    let m = p.public_input.main_page.len() as int;
    let s = p.public_input.segments.len() as int;
    let h = p.public_input.continuous_page_headers.len() as int;
    let d = p.public_input.dynamic_params.len() as int;
    let c = p.commitments.len() as int;
    let nf = 2 * m + 2 * s + 3 * h + d + c + 8;
    assert(fs.len() == nf);
    assert(b.len() == 20 + 8 * nf);
    lemma_be_bytes4_value(m as u32);
    lemma_be_bytes4_value(s as u32);
    lemma_be_bytes4_value(h as u32);
    lemma_be_bytes4_value(d as u32);
    lemma_be_bytes4_value(c as u32);
    assert(b.subrange(0, 4) =~= be_bytes4(m as u32));
    assert(b.subrange(4, 8) =~= be_bytes4(s as u32));
    assert(b.subrange(8, 12) =~= be_bytes4(h as u32));
    assert(b.subrange(12, 16) =~= be_bytes4(d as u32));
    assert(b.subrange(16, 20) =~= be_bytes4(c as u32));
    // every wire field element is well-formed
    assert forall|i: int| 0 <= i < nf implies (#[trigger] fs[i]).wf() by {
        let we = wire_entries(p.public_input.main_page);
        let sf = seg_flat(p.public_input.segments);
        let hf = header_flat(p.public_input.continuous_page_headers);
        if i < 2 * m {
            assert(fs[i] == we[i]);
            let e = p.public_input.main_page[i / 2];
            assert(0 <= i / 2 < m);
        } else if i < 2 * m + 2 * s {
            assert(fs[i] == sf[i - 2 * m]);
            let j = i - 2 * m;
            assert(0 <= j / 2 < s);
        } else if i < 2 * m + 2 * s + 3 * h {
            assert(fs[i] == hf[i - 2 * m - 2 * s]);
            let j = i - 2 * m - 2 * s;
            assert(0 <= j / 3 < h);
        } else if i < 2 * m + 2 * s + 3 * h + d {
            assert(fs[i] == p.public_input.dynamic_params[i - 2 * m - 2 * s - 3 * h]);
        } else if i < 2 * m + 2 * s + 3 * h + d + c {
            assert(fs[i] == p.commitments[i - 2 * m - 2 * s - 3 * h - d]);
        } else {
        }
    }
    // each encoded slot reads back as its field element
    assert forall|i: int| 0 <= i < nf implies 0 <= #[trigger] be_value(
        b.subrange(20 + 8 * i, 20 + 8 * i + 8),
    ) < FIELD_MODULUS && felt_at(b, 20 + 8 * i) == fs[i] by {
        lemma_enc_felts_slice(fs, i);
        assert(b.subrange(20 + 8 * i, 20 + 8 * i + 8) =~= enc_felts(fs).subrange(8 * i, 8 * i + 8));
        lemma_be_bytes8_value(fs[i].v);
    }
    assert(felts_canonical(b, 20, nf)) by {
        assert forall|i: int| 0 <= i < nf implies 0 <= #[trigger] be_value(
            b.subrange(20 + 8 * i, 20 + 8 * i + 8),
        ) < FIELD_MODULUS by {}
    }
    let q = parse_body(b, m, s, h, d, c);
    let segbase = 20 + 16 * m;
    let hdrbase = segbase + 16 * s;
    let dynbase = hdrbase + 24 * h;
    let commbase = dynbase + 8 * d;
    let fixbase = commbase + 8 * c;
    assert forall|i: int| 0 <= i < m implies q.public_input.main_page[i]
        == p.public_input.main_page[i] by {
        assert(felt_at(b, 20 + 8 * (2 * i)) == fs[2 * i]);
        assert(felt_at(b, 20 + 8 * (2 * i + 1)) == fs[2 * i + 1]);
        assert(fs[2 * i] == wire_entries(p.public_input.main_page)[2 * i]);
        assert(fs[2 * i + 1] == wire_entries(p.public_input.main_page)[2 * i + 1]);
        assert((2 * i) / 2 == i && (2 * i) % 2 == 0) by {
            lemma_fundamental_div_mod_converse(2 * i, 2, i, 0);
        }
        assert((2 * i + 1) / 2 == i && (2 * i + 1) % 2 == 1) by {
            lemma_fundamental_div_mod_converse(2 * i + 1, 2, i, 1);
        }
    }
    assert(q.public_input.main_page =~= p.public_input.main_page);
    assert forall|i: int| 0 <= i < s implies q.public_input.segments[i]
        == p.public_input.segments[i] by {
        let base = 2 * m;
        assert(felt_at(b, 20 + 8 * (base + 2 * i)) == fs[base + 2 * i]);
        assert(felt_at(b, 20 + 8 * (base + 2 * i + 1)) == fs[base + 2 * i + 1]);
        assert(fs[base + 2 * i] == seg_flat(p.public_input.segments)[2 * i]);
        assert(fs[base + 2 * i + 1] == seg_flat(p.public_input.segments)[2 * i + 1]);
        assert((2 * i) / 2 == i && (2 * i) % 2 == 0) by {
            lemma_fundamental_div_mod_converse(2 * i, 2, i, 0);
        }
        assert((2 * i + 1) / 2 == i && (2 * i + 1) % 2 == 1) by {
            lemma_fundamental_div_mod_converse(2 * i + 1, 2, i, 1);
        }
    }
    assert(q.public_input.segments =~= p.public_input.segments);
    assert forall|i: int| 0 <= i < h implies q.public_input.continuous_page_headers[i]
        == p.public_input.continuous_page_headers[i] by {
        let base = 2 * m + 2 * s;
        assert(felt_at(b, 20 + 8 * (base + 3 * i)) == fs[base + 3 * i]);
        assert(felt_at(b, 20 + 8 * (base + 3 * i + 1)) == fs[base + 3 * i + 1]);
        assert(felt_at(b, 20 + 8 * (base + 3 * i + 2)) == fs[base + 3 * i + 2]);
        assert(fs[base + 3 * i] == header_flat(p.public_input.continuous_page_headers)[3 * i]);
        assert(fs[base + 3 * i + 1] == header_flat(p.public_input.continuous_page_headers)[3 * i
            + 1]);
        assert(fs[base + 3 * i + 2] == header_flat(p.public_input.continuous_page_headers)[3 * i
            + 2]);
        assert((3 * i) / 3 == i && (3 * i) % 3 == 0) by {
            lemma_fundamental_div_mod_converse(3 * i, 3, i, 0);
        }
        assert((3 * i + 1) / 3 == i && (3 * i + 1) % 3 == 1) by {
            lemma_fundamental_div_mod_converse(3 * i + 1, 3, i, 1);
        }
        assert((3 * i + 2) / 3 == i && (3 * i + 2) % 3 == 2) by {
            lemma_fundamental_div_mod_converse(3 * i + 2, 3, i, 2);
        }
    }
    assert(q.public_input.continuous_page_headers =~= p.public_input.continuous_page_headers);
    assert forall|i: int| 0 <= i < d implies q.public_input.dynamic_params[i]
        == p.public_input.dynamic_params[i] by {
        let base = 2 * m + 2 * s + 3 * h;
        assert(felt_at(b, 20 + 8 * (base + i)) == fs[base + i]);
        assert(fs[base + i] == p.public_input.dynamic_params[i]);
    }
    assert(q.public_input.dynamic_params =~= p.public_input.dynamic_params);
    assert forall|i: int| 0 <= i < c implies q.commitments[i] == p.commitments[i] by {
        let base = 2 * m + 2 * s + 3 * h + d;
        assert(felt_at(b, 20 + 8 * (base + i)) == fs[base + i]);
        assert(fs[base + i] == p.commitments[i]);
    }
    assert(q.commitments =~= p.commitments);
    let fixidx = 2 * m + 2 * s + 3 * h + d + c;
    assert(felt_at(b, 20 + 8 * fixidx) == fs[fixidx]);
    assert(felt_at(b, 20 + 8 * (fixidx + 1)) == fs[fixidx + 1]);
    assert(felt_at(b, 20 + 8 * (fixidx + 2)) == fs[fixidx + 2]);
    assert(felt_at(b, 20 + 8 * (fixidx + 3)) == fs[fixidx + 3]);
    assert(felt_at(b, 20 + 8 * (fixidx + 4)) == fs[fixidx + 4]);
    assert(felt_at(b, 20 + 8 * (fixidx + 5)) == fs[fixidx + 5]);
    assert(felt_at(b, 20 + 8 * (fixidx + 6)) == fs[fixidx + 6]);
    assert(felt_at(b, 20 + 8 * (fixidx + 7)) == fs[fixidx + 7]);
    assert(q =~~= p);
}


/// Builds every field element of a proof in wire order.
fn proof_felt_list(p: &Proof) -> (out: Vec<Felt>)
    ensures
        out@ == proof_felts(p@),
{
    let ghost pm = p@;
    let mut out: Vec<Felt> = Vec::new();
    proof {
        assert(out@ =~= wire_entries(pm.public_input.main_page).subrange(0, 0));
    }
    let m = p.public_input.main_page.len();
    let mut i: usize = 0;
    while i < m
        invariant
            pm == p@,
            m == pm.public_input.main_page.len(),
            i <= m,
            out@ == wire_entries(pm.public_input.main_page).subrange(0, 2 * i as int),
        decreases m - i,
    {
        let e = p.public_input.main_page[i];
        out.push(e.address);
        out.push(e.value);
        proof {
            assert(wire_entries(pm.public_input.main_page)[2 * i as int] == e.address);
            assert(wire_entries(pm.public_input.main_page)[2 * i as int + 1] == e.value);
            assert(out@ =~= wire_entries(pm.public_input.main_page).subrange(
                0,
                2 * (i + 1) as int,
            ));
        }
        i = i + 1;
    }
    let ghost part1 = wire_entries(pm.public_input.main_page);
    proof {
        assert(part1.subrange(0, 2 * m as int) =~= part1);
        assert(out@ =~= part1 + seg_flat(pm.public_input.segments).subrange(0, 0));
    }
    let ns = p.public_input.segments.len();
    let mut i: usize = 0;
    while i < ns
        invariant
            pm == p@,
            part1 == wire_entries(pm.public_input.main_page),
            ns == pm.public_input.segments.len(),
            i <= ns,
            out@ == part1 + seg_flat(pm.public_input.segments).subrange(0, 2 * i as int),
        decreases ns - i,
    {
        let sg = p.public_input.segments[i];
        out.push(sg.begin_addr);
        out.push(sg.stop_ptr);
        proof {
            assert(seg_flat(pm.public_input.segments)[2 * i as int] == sg.begin_addr);
            assert(seg_flat(pm.public_input.segments)[2 * i as int + 1] == sg.stop_ptr);
            assert(out@ =~= part1 + seg_flat(pm.public_input.segments).subrange(
                0,
                2 * (i + 1) as int,
            ));
        }
        i = i + 1;
    }
    let ghost part2 = part1 + seg_flat(pm.public_input.segments);
    proof {
        assert(seg_flat(pm.public_input.segments).subrange(0, 2 * ns as int) =~= seg_flat(
            pm.public_input.segments,
        ));
        assert(out@ =~= part2 + header_flat(pm.public_input.continuous_page_headers).subrange(
            0,
            0,
        ));
    }
    let nh = p.public_input.continuous_page_headers.len();
    let mut i: usize = 0;
    while i < nh
        invariant
            pm == p@,
            part2 == wire_entries(pm.public_input.main_page) + seg_flat(pm.public_input.segments),
            nh == pm.public_input.continuous_page_headers.len(),
            i <= nh,
            out@ == part2 + header_flat(pm.public_input.continuous_page_headers).subrange(
                0,
                3 * i as int,
            ),
        decreases nh - i,
    {
        let hd = p.public_input.continuous_page_headers[i];
        out.push(hd.start_address);
        out.push(hd.size);
        out.push(hd.hash);
        proof {
            assert(header_flat(pm.public_input.continuous_page_headers)[3 * i as int]
                == hd.start_address);
            assert(header_flat(pm.public_input.continuous_page_headers)[3 * i as int + 1]
                == hd.size);
            assert(header_flat(pm.public_input.continuous_page_headers)[3 * i as int + 2]
                == hd.hash);
            assert(out@ =~= part2 + header_flat(pm.public_input.continuous_page_headers).subrange(
                0,
                3 * (i + 1) as int,
            ));
        }
        i = i + 1;
    }
    let ghost part3 = part2 + header_flat(pm.public_input.continuous_page_headers);
    proof {
        assert(header_flat(pm.public_input.continuous_page_headers).subrange(0, 3 * nh as int)
            =~= header_flat(pm.public_input.continuous_page_headers));
        assert(out@ =~= part3 + pm.public_input.dynamic_params.subrange(0, 0));
    }
    let nd = p.public_input.dynamic_params.len();
    let mut i: usize = 0;
    while i < nd
        invariant
            pm == p@,
            part3 == wire_entries(pm.public_input.main_page) + seg_flat(pm.public_input.segments)
                + header_flat(pm.public_input.continuous_page_headers),
            nd == pm.public_input.dynamic_params.len(),
            i <= nd,
            out@ == part3 + pm.public_input.dynamic_params.subrange(0, i as int),
        decreases nd - i,
    {
        let f = p.public_input.dynamic_params[i];
        out.push(f);
        proof {
            assert(out@ =~= part3 + pm.public_input.dynamic_params.subrange(0, i + 1));
        }
        i = i + 1;
    }
    let ghost part4 = part3 + pm.public_input.dynamic_params;
    proof {
        assert(pm.public_input.dynamic_params.subrange(0, nd as int)
            =~= pm.public_input.dynamic_params);
        assert(out@ =~= part4 + pm.commitments.subrange(0, 0));
    }
    let nc = p.commitments.len();
    let mut i: usize = 0;
    while i < nc
        invariant
            pm == p@,
            part4 == wire_entries(pm.public_input.main_page) + seg_flat(pm.public_input.segments)
                + header_flat(pm.public_input.continuous_page_headers)
                + pm.public_input.dynamic_params,
            nc == pm.commitments.len(),
            i <= nc,
            out@ == part4 + pm.commitments.subrange(0, i as int),
        decreases nc - i,
    {
        let f = p.commitments[i];
        out.push(f);
        proof {
            assert(out@ =~= part4 + pm.commitments.subrange(0, i + 1));
        }
        i = i + 1;
    }
    proof {
        assert(pm.commitments.subrange(0, nc as int) =~= pm.commitments);
    }
    out.push(p.public_input.log_n_steps);
    out.push(p.public_input.range_check_min);
    out.push(p.public_input.range_check_max);
    out.push(p.public_input.layout);
    out.push(p.public_input.padding_addr);
    out.push(p.public_input.padding_value);
    out.push(p.claimed_composition);
    out.push(p.declared_hash);
    proof {
        assert(out@ =~= proof_felts(pm));
    }
    out
}

/// Serializes a validated proof back to wire form.
pub fn encode_proof(p: &Proof) -> (out: Vec<u8>)
    requires
        p.wf(),
    ensures
        out@ == encode_proof_spec(p@),
{
    let mut out = crate::felt::u32_to_bytes_be(p.public_input.main_page.len() as u32);
    let mut b2 = crate::felt::u32_to_bytes_be(p.public_input.segments.len() as u32);
    out.append(&mut b2);
    let mut b3 = crate::felt::u32_to_bytes_be(
        p.public_input.continuous_page_headers.len() as u32,
    );
    out.append(&mut b3);
    let mut b4 = crate::felt::u32_to_bytes_be(p.public_input.dynamic_params.len() as u32);
    out.append(&mut b4);
    let mut b5 = crate::felt::u32_to_bytes_be(p.commitments.len() as u32);
    out.append(&mut b5);
    proof {
        assert(out@ =~= proof_header(p@));
    }
    let fs = proof_felt_list(p);
    let n = fs.len();
    let mut i: usize = 0;
    while i < n
        invariant
            fs@ == proof_felts(p@),
            n == fs@.len(),
            i <= n,
            out@ == proof_header(p@) + enc_felts(fs@).subrange(0, 8 * i as int),
        decreases n - i,
    {
        let mut fb = fs[i].to_bytes_be();
        out.append(&mut fb);
        proof {
            lemma_enc_felts_slice(fs@, i as int);
            assert(enc_felts(fs@).subrange(0, 8 * (i + 1) as int) =~= enc_felts(fs@).subrange(
                0,
                8 * i as int,
            ) + be_bytes8(fs@[i as int].v));
            assert(out@ =~= proof_header(p@) + enc_felts(fs@).subrange(0, 8 * (i + 1) as int));
        }
        i = i + 1;
    }
    proof {
        assert(enc_felts(fs@).subrange(0, 8 * n as int) =~= enc_felts(fs@));
        assert(out@ =~= encode_proof_spec(p@));
    }
    out
}


/// Parses and validates proof bytes: the explicit ingestion-time structural
/// check.  Accepts exactly what `parse_proof_spec` accepts.
#[verifier::rlimit(80)]
pub fn parse_proof(bytes: &Vec<u8>) -> (r: Result<Proof, EngineError>)
    ensures
        match r {
            Ok(p) => parse_proof_spec(bytes@) == Some(p@) && p.wf(),
            Err(e) => e == EngineError::MalformedProof && parse_proof_spec(bytes@) is None,
        },
{
    let blen = bytes.len();
    if blen < 20 {
        return Err(EngineError::MalformedProof);
    }
    let m = read_be_at(bytes, 0, 4);
    let s = read_be_at(bytes, 4, 4);
    let h = read_be_at(bytes, 8, 4);
    let d = read_be_at(bytes, 12, 4);
    let c = read_be_at(bytes, 16, 4);
    proof {
        assert(pow256(4) == 0x1_0000_0000) by {
            reveal_with_fuel(pow256, 5);
        }
        lemma_be_value_bound(bytes@.subrange(0, 4));
        lemma_be_value_bound(bytes@.subrange(4, 8));
        lemma_be_value_bound(bytes@.subrange(8, 12));
        lemma_be_value_bound(bytes@.subrange(12, 16));
        lemma_be_value_bound(bytes@.subrange(16, 20));
    }
    let nf: u64 = 2 * m + 2 * s + 3 * h + d + c + 8;
    let expected: u64 = 20 + 8 * nf;
    if (blen as u64) != expected {
        return Err(EngineError::MalformedProof);
    }
    let ghost gm = m as int;
    let ghost gs = s as int;
    let ghost gh = h as int;
    let ghost gd = d as int;
    let ghost gc = c as int;
    let ghost gnf = nf as int;
    proof {
        assert(nf as int <= blen as int);
    }
    let nfu: usize = nf as usize;
    let mut fsv: Vec<Felt> = Vec::new();
    let mut i: usize = 0;
    while i < nfu
        invariant
            blen == bytes@.len(),
            blen as int == 20 + 8 * gnf,
            nfu == gnf,
            i <= nfu,
            fsv@.len() == i,
            forall|k: int|
                0 <= k < i ==> (#[trigger] fsv@[k]) == felt_at(bytes@, 20 + 8 * k) && fsv@[k].wf()
                    && 0 <= be_value(bytes@.subrange(20 + 8 * k, 20 + 8 * k + 8)) < FIELD_MODULUS,
        decreases nfu - i,
    {
        let v = read_be_at(bytes, 20 + 8 * i, 8);
        proof {
            lemma_be_value_bound(bytes@.subrange(20 + 8 * i as int, 20 + 8 * i as int + 8));
        }
        if v >= FIELD_MODULUS {
            proof {
                assert(!felts_canonical(bytes@, 20, gnf));
            }
            return Err(EngineError::MalformedProof);
        }
        fsv.push(Felt { v });
        i = i + 1;
    }
    proof {
        assert forall|k: int| 0 <= k < gnf implies 0 <= #[trigger] be_value(
            bytes@.subrange(20 + 8 * k, 20 + 8 * k + 8),
        ) < FIELD_MODULUS by {
            assert(fsv@[k] == felt_at(bytes@, 20 + 8 * k));
        }
        assert(felts_canonical(bytes@, 20, gnf));
        assert(2 * gm <= gnf && 2 * gs <= gnf && 3 * gh <= gnf && gd <= gnf && gc <= gnf);
    }
    let mu: usize = m as usize;
    let su: usize = s as usize;
    let hu: usize = h as usize;
    let du: usize = d as usize;
    let cu: usize = c as usize;
    let mut main_page: Vec<PageEntry> = Vec::new();
    let mut i: usize = 0;
    while i < mu
        invariant
            nfu == gnf,
            gnf == 2 * gm + 2 * gs + 3 * gh + gd + gc + 8,
            0 <= gm && 0 <= gs && 0 <= gh && 0 <= gd && 0 <= gc,
            mu == gm,
            i <= mu,
            fsv@.len() == gnf,
            forall|k: int|
                0 <= k < gnf ==> (#[trigger] fsv@[k]) == felt_at(bytes@, 20 + 8 * k)
                    && fsv@[k].wf(),
            main_page@.len() == i,
            forall|k: int|
                0 <= k < i ==> (#[trigger] main_page@[k]) == (PageEntry {
                    address: felt_at(bytes@, 20 + 16 * k),
                    value: felt_at(bytes@, 20 + 16 * k + 8),
                }) && main_page@[k].address.wf() && main_page@[k].value.wf(),
        decreases mu - i,
    {
        let a = fsv[2 * i];
        let v = fsv[2 * i + 1];
        main_page.push(PageEntry { address: a, value: v });
        proof {
            assert(20 + 8 * (2 * i as int) == 20 + 16 * i as int);
            assert(20 + 8 * (2 * i as int + 1) == 20 + 16 * i as int + 8);
        }
        i = i + 1;
    }
    let mut segments: Vec<Segment> = Vec::new();
    let mut i: usize = 0;
    while i < su
        invariant
            nfu == gnf,
            gnf == 2 * gm + 2 * gs + 3 * gh + gd + gc + 8,
            0 <= gm && 0 <= gs && 0 <= gh && 0 <= gd && 0 <= gc,
            mu == gm,
            su == gs,
            i <= su,
            fsv@.len() == gnf,
            forall|k: int|
                0 <= k < gnf ==> (#[trigger] fsv@[k]) == felt_at(bytes@, 20 + 8 * k)
                    && fsv@[k].wf(),
            segments@.len() == i,
            forall|k: int|
                0 <= k < i ==> (#[trigger] segments@[k]) == (Segment {
                    begin_addr: felt_at(bytes@, 20 + 16 * gm + 16 * k),
                    stop_ptr: felt_at(bytes@, 20 + 16 * gm + 16 * k + 8),
                }) && segments@[k].begin_addr.wf() && segments@[k].stop_ptr.wf(),
        decreases su - i,
    {
        let a = fsv[2 * mu + 2 * i];
        let v = fsv[2 * mu + 2 * i + 1];
        segments.push(Segment { begin_addr: a, stop_ptr: v });
        proof {
            assert(20 + 8 * (2 * gm + 2 * i as int) == 20 + 16 * gm + 16 * i as int);
            assert(20 + 8 * (2 * gm + 2 * i as int + 1) == 20 + 16 * gm + 16 * i as int + 8);
        }
        i = i + 1;
    }
    let mut headers: Vec<PageHeader> = Vec::new();
    let mut i: usize = 0;
    while i < hu
        invariant
            nfu == gnf,
            gnf == 2 * gm + 2 * gs + 3 * gh + gd + gc + 8,
            0 <= gm && 0 <= gs && 0 <= gh && 0 <= gd && 0 <= gc,
            mu == gm,
            su == gs,
            hu == gh,
            i <= hu,
            fsv@.len() == gnf,
            forall|k: int|
                0 <= k < gnf ==> (#[trigger] fsv@[k]) == felt_at(bytes@, 20 + 8 * k)
                    && fsv@[k].wf(),
            headers@.len() == i,
            forall|k: int|
                0 <= k < i ==> (#[trigger] headers@[k]) == (PageHeader {
                    start_address: felt_at(bytes@, 20 + 16 * gm + 16 * gs + 24 * k),
                    size: felt_at(bytes@, 20 + 16 * gm + 16 * gs + 24 * k + 8),
                    hash: felt_at(bytes@, 20 + 16 * gm + 16 * gs + 24 * k + 16),
                }) && headers@[k].start_address.wf() && headers@[k].size.wf()
                    && headers@[k].hash.wf(),
        decreases hu - i,
    {
        let a = fsv[2 * mu + 2 * su + 3 * i];
        let b = fsv[2 * mu + 2 * su + 3 * i + 1];
        let e = fsv[2 * mu + 2 * su + 3 * i + 2];
        headers.push(PageHeader { start_address: a, size: b, hash: e });
        proof {
            assert(20 + 8 * (2 * gm + 2 * gs + 3 * i as int) == 20 + 16 * gm + 16 * gs + 24
                * i as int);
            assert(20 + 8 * (2 * gm + 2 * gs + 3 * i as int + 1) == 20 + 16 * gm + 16 * gs + 24
                * i as int + 8);
            assert(20 + 8 * (2 * gm + 2 * gs + 3 * i as int + 2) == 20 + 16 * gm + 16 * gs + 24
                * i as int + 16);
        }
        i = i + 1;
    }
    let mut dynv: Vec<Felt> = Vec::new();
    let mut i: usize = 0;
    while i < du
        invariant
            nfu == gnf,
            gnf == 2 * gm + 2 * gs + 3 * gh + gd + gc + 8,
            0 <= gm && 0 <= gs && 0 <= gh && 0 <= gd && 0 <= gc,
            mu == gm,
            su == gs,
            hu == gh,
            du == gd,
            i <= du,
            fsv@.len() == gnf,
            forall|k: int|
                0 <= k < gnf ==> (#[trigger] fsv@[k]) == felt_at(bytes@, 20 + 8 * k)
                    && fsv@[k].wf(),
            dynv@.len() == i,
            forall|k: int|
                0 <= k < i ==> (#[trigger] dynv@[k]) == felt_at(
                    bytes@,
                    20 + 16 * gm + 16 * gs + 24 * gh + 8 * k,
                ) && dynv@[k].wf(),
        decreases du - i,
    {
        let a = fsv[2 * mu + 2 * su + 3 * hu + i];
        dynv.push(a);
        proof {
            assert(20 + 8 * (2 * gm + 2 * gs + 3 * gh + i as int) == 20 + 16 * gm + 16 * gs + 24
                * gh + 8 * i as int);
        }
        i = i + 1;
    }
    let mut comms: Vec<Felt> = Vec::new();
    let mut i: usize = 0;
    while i < cu
        invariant
            nfu == gnf,
            gnf == 2 * gm + 2 * gs + 3 * gh + gd + gc + 8,
            0 <= gm && 0 <= gs && 0 <= gh && 0 <= gd && 0 <= gc,
            mu == gm,
            su == gs,
            hu == gh,
            du == gd,
            cu == gc,
            i <= cu,
            fsv@.len() == gnf,
            forall|k: int|
                0 <= k < gnf ==> (#[trigger] fsv@[k]) == felt_at(bytes@, 20 + 8 * k)
                    && fsv@[k].wf(),
            comms@.len() == i,
            forall|k: int|
                0 <= k < i ==> (#[trigger] comms@[k]) == felt_at(
                    bytes@,
                    20 + 16 * gm + 16 * gs + 24 * gh + 8 * gd + 8 * k,
                ) && comms@[k].wf(),
        decreases cu - i,
    {
        let a = fsv[2 * mu + 2 * su + 3 * hu + du + i];
        comms.push(a);
        proof {
            assert(20 + 8 * (2 * gm + 2 * gs + 3 * gh + gd + i as int) == 20 + 16 * gm + 16 * gs
                + 24 * gh + 8 * gd + 8 * i as int);
        }
        i = i + 1;
    }
    let fix0: usize = 2 * mu + 2 * su + 3 * hu + du + cu;
    let pi = PublicInput {
        log_n_steps: fsv[fix0],
        range_check_min: fsv[fix0 + 1],
        range_check_max: fsv[fix0 + 2],
        layout: fsv[fix0 + 3],
        dynamic_params: dynv,
        segments,
        padding_addr: fsv[fix0 + 4],
        padding_value: fsv[fix0 + 5],
        main_page,
        continuous_page_headers: headers,
    };
    let p = Proof {
        public_input: pi,
        commitments: comms,
        claimed_composition: fsv[fix0 + 6],
        declared_hash: fsv[fix0 + 7],
    };
    proof {
        let q = parse_body(bytes@, gm, gs, gh, gd, gc);
        let fixbase = 20 + 16 * gm + 16 * gs + 24 * gh + 8 * gd + 8 * gc;
        assert(20 + 8 * (fix0 as int) == fixbase);
        assert(20 + 8 * (fix0 as int + 1) == fixbase + 8);
        assert(20 + 8 * (fix0 as int + 2) == fixbase + 16);
        assert(20 + 8 * (fix0 as int + 3) == fixbase + 24);
        assert(20 + 8 * (fix0 as int + 4) == fixbase + 32);
        assert(20 + 8 * (fix0 as int + 5) == fixbase + 40);
        assert(20 + 8 * (fix0 as int + 6) == fixbase + 48);
        assert(20 + 8 * (fix0 as int + 7) == fixbase + 56);
        assert(p@.public_input.main_page =~= q.public_input.main_page);
        assert(p@.public_input.segments =~= q.public_input.segments);
        assert(p@.public_input.continuous_page_headers =~= q.public_input.continuous_page_headers);
        assert(p@.public_input.dynamic_params =~= q.public_input.dynamic_params);
        assert(p@.commitments =~= q.commitments);
        assert(p@ =~~= q);
        assert(parse_proof_spec(bytes@) == Some(p@));
        assert(p@.wf());
    }
    Ok(p)
}


/// A region persisted as bytes: each record length-prefixed, in order.
pub open spec fn encode_region(rs: Seq<Seq<u8>>) -> Seq<u8>
    decreases rs.len(),
{
    if rs.len() == 0 {
        Seq::empty()
    } else {
        be_bytes4(rs.first().len() as u32) + rs.first() + encode_region(rs.drop_first())
    }
}

/// Reads a persisted region back; `None` on any truncated or oversized prefix.
pub open spec fn parse_region(b: Seq<u8>) -> Option<Seq<Seq<u8>>>
    decreases b.len(),
{
    if b.len() == 0 {
        Some(Seq::empty())
    } else if b.len() < 4 {
        None
    } else {
        let l = be_value(b.subrange(0, 4));
        if l < 0 || b.len() < 4 + l {
            None
        } else {
            match parse_region(b.skip(4 + l)) {
                Some(rest) => Some(seq![b.subrange(4, 4 + l)] + rest),
                None => None,
            }
        }
    }
}

pub proof fn lemma_encode_region_concat(a: Seq<Seq<u8>>, b: Seq<Seq<u8>>)
    ensures
        encode_region(a + b) == encode_region(a) + encode_region(b),
    decreases a.len(),
{
    if a.len() == 0 {
        assert(a + b =~= b);
        assert(encode_region(a) + encode_region(b) =~= encode_region(b));
    } else {
        lemma_encode_region_concat(a.drop_first(), b);
        assert((a + b).first() == a.first());
        assert((a + b).drop_first() =~= a.drop_first() + b);
        assert(encode_region(a + b) =~= encode_region(a) + encode_region(b));
    }
}

/// A persisted region costs exactly what the live region is accounted at.
pub proof fn lemma_encode_region_len(rs: Seq<Seq<u8>>)
    ensures
        encode_region(rs).len() == crate::stack::region_cost(rs),
    decreases rs.len(),
{
    if rs.len() > 0 {
        lemma_encode_region_len(rs.drop_last());
        assert(rs =~= rs.drop_last() + seq![rs.last()]);
        lemma_encode_region_concat(rs.drop_last(), seq![rs.last()]);
        let single = seq![rs.last()];
        assert(single.len() == 1 && single.first() == rs.last());
        assert(single.drop_first() =~= Seq::<Seq<u8>>::empty());
        assert(encode_region(single.drop_first()).len() == 0);
        assert(encode_region(single) == be_bytes4(rs.last().len() as u32) + rs.last()
            + encode_region(single.drop_first()));
        assert(be_bytes4(rs.last().len() as u32).len() == 4);
        assert(encode_region(single).len() == 4 + rs.last().len());
    }
}

/// Region round trip: reading a persisted region back yields exactly the
/// records that were written.
pub proof fn lemma_region_roundtrip(rs: Seq<Seq<u8>>)
    requires
        forall|i: int| 0 <= i < rs.len() ==> (#[trigger] rs[i]).len() < 0x1_0000_0000,
    ensures
        parse_region(encode_region(rs)) == Some(rs),
    decreases rs.len(),
{
    if rs.len() == 0 {
        assert(parse_region(encode_region(rs)) =~= Some(Seq::<Seq<u8>>::empty()));
        assert(Seq::<Seq<u8>>::empty() =~= rs);
    } else {
        let r0 = rs.first();
        let rest = rs.drop_first();
        assert(forall|i: int| 0 <= i < rest.len() ==> (#[trigger] rest[i]).len() < 0x1_0000_0000)
            by {
            assert(forall|i: int| 0 <= i < rest.len() ==> rest[i] == rs[i + 1]);
        }
        lemma_region_roundtrip(rest);
        let b = encode_region(rs);
        lemma_be_bytes4_value(r0.len() as u32);
        assert(b.subrange(0, 4) =~= be_bytes4(r0.len() as u32));
        let l = r0.len() as int;
        assert(b.len() == 4 + l + encode_region(rest).len());
        assert(b.subrange(4, 4 + l) =~= r0);
        assert(b.skip(4 + l) =~= encode_region(rest));
        assert(seq![r0] + rest =~= rs);
    }
}

/// The persisted form of a whole session: the data region, the task region,
/// and the proof bytes, as three length-prefixed blocks.
pub open spec fn checkpoint_spec(data: Seq<Seq<u8>>, frames: Seq<Seq<u8>>, p: ProofModel) -> Seq<
    u8,
> {
    let db = encode_region(data);
    let tb = encode_region(frames);
    let pb = encode_proof_spec(p);
    be_bytes8(db.len() as u64) + db + be_bytes8(tb.len() as u64) + tb + be_bytes8(pb.len() as u64)
        + pb
}

pub open spec fn parse_checkpoint(b: Seq<u8>) -> Option<
    (Seq<Seq<u8>>, Seq<Seq<u8>>, ProofModel),
> {
    if b.len() < 8 {
        None
    } else {
        let l1 = be_value(b.subrange(0, 8));
        if l1 < 0 || b.len() < 16 + l1 {
            None
        } else {
            let l2 = be_value(b.subrange(8 + l1, 16 + l1));
            if l2 < 0 || b.len() < 24 + l1 + l2 {
                None
            } else {
                let l3 = be_value(b.subrange(16 + l1 + l2, 24 + l1 + l2));
                if l3 < 0 || b.len() != 24 + l1 + l2 + l3 {
                    None
                } else {
                    let dr = parse_region(b.subrange(8, 8 + l1));
                    let tf = parse_region(b.subrange(16 + l1, 16 + l1 + l2));
                    let pm = parse_proof_spec(b.subrange(24 + l1 + l2, 24 + l1 + l2 + l3));
                    match (dr, tf, pm) {
                        (Some(dr), Some(tf), Some(pm)) => Some((dr, tf, pm)),
                        _ => None,
                    }
                }
            }
        }
    }
}

/// Checkpoint round trip: a persisted session reads back as exactly the
/// regions and proof that were saved — resuming from a checkpoint continues
/// from the same state, however the ticks were batched.
pub proof fn lemma_checkpoint_roundtrip(
    data: Seq<Seq<u8>>,
    frames: Seq<Seq<u8>>,
    p: ProofModel,
)
    requires
        forall|i: int| 0 <= i < data.len() ==> (#[trigger] data[i]).len() < 0x1_0000_0000,
        forall|i: int| 0 <= i < frames.len() ==> (#[trigger] frames[i]).len() < 0x1_0000_0000,
        encode_region(data).len() < 0x1_0000_0000_0000_0000,
        encode_region(frames).len() < 0x1_0000_0000_0000_0000,
        encode_proof_spec(p).len() < 0x1_0000_0000_0000_0000,
        p.wf(),
    ensures
        parse_checkpoint(checkpoint_spec(data, frames, p)) == Some((data, frames, p)),
{
    let db = encode_region(data);
    let tb = encode_region(frames);
    let pb = encode_proof_spec(p);
    let b = checkpoint_spec(data, frames, p);
    let l1 = db.len() as int;
    let l2 = tb.len() as int;
    let l3 = pb.len() as int;
    lemma_be_bytes8_value(db.len() as u64);
    lemma_be_bytes8_value(tb.len() as u64);
    lemma_be_bytes8_value(pb.len() as u64);
    assert(b.len() == 24 + l1 + l2 + l3);
    assert(b.subrange(0, 8) =~= be_bytes8(db.len() as u64));
    assert(b.subrange(8 + l1, 16 + l1) =~= be_bytes8(tb.len() as u64));
    assert(b.subrange(16 + l1 + l2, 24 + l1 + l2) =~= be_bytes8(pb.len() as u64));
    assert(b.subrange(8, 8 + l1) =~= db);
    assert(b.subrange(16 + l1, 16 + l1 + l2) =~= tb);
    assert(b.subrange(24 + l1 + l2, 24 + l1 + l2 + l3) =~= pb);
    lemma_region_roundtrip(data);
    lemma_region_roundtrip(frames);
    lemma_proof_roundtrip(p);
}


pub proof fn lemma_encode_region_snoc(a: Seq<Seq<u8>>, r: Seq<u8>)
    ensures
        encode_region(a.push(r)) == encode_region(a) + be_bytes4(r.len() as u32) + r,
{
    assert(a.push(r) =~= a + seq![r]);
    lemma_encode_region_concat(a, seq![r]);
    let single = seq![r];
    assert(single.first() == r);
    assert(single.drop_first() =~= Seq::<Seq<u8>>::empty());
    assert(encode_region(single.drop_first()).len() == 0);
    assert(encode_region(single) =~= be_bytes4(r.len() as u32) + r);
    assert(encode_region(a.push(r)) =~= encode_region(a) + be_bytes4(r.len() as u32) + r);
}

/// Copies `len` bytes starting at `start` out of a buffer.
fn copy_range(b: &Vec<u8>, start: usize, len: usize) -> (out: Vec<u8>)
    requires
        start + len <= b@.len(),
    ensures
        out@ == b@.subrange(start as int, start as int + len),
{
    let mut out: Vec<u8> = Vec::new();
    let cap = b.len();
    let mut i: usize = 0;
    while i < len
        invariant
            start + len <= cap,
            cap == b@.len(),
            i <= len,
            out@ == b@.subrange(start as int, start as int + i),
        decreases len - i,
    {
        out.push(b[start + i]);
        proof {
            assert(out@ =~= b@.subrange(start as int, start as int + i + 1));
        }
        i = i + 1;
    }
    out
}

/// Appends a copy of `src` to `out`.
fn append_copy(out: &mut Vec<u8>, src: &Vec<u8>)
    ensures
        final(out)@ == old(out)@ + src@,
{
    let mut i: usize = 0;
    while i < src.len()
        invariant
            i <= src@.len(),
            out@ == old(out)@ + src@.subrange(0, i as int),
        decreases src@.len() - i,
    {
        out.push(src[i]);
        proof {
            assert(out@ =~= old(out)@ + src@.subrange(0, i + 1));
        }
        i = i + 1;
    }
    proof {
        assert(out@ =~= old(out)@ + src@);
    }
}

fn encode_data_block(stack: &Stack) -> (out: Vec<u8>)
    requires
        stack.wf(),
    ensures
        out@ == encode_region(stack.data_records()),
{
    proof {
        crate::stack::lemma_stack_costs(*stack);
    }
    let mut out: Vec<u8> = Vec::new();
    let n = stack.data_len();
    proof {
        assert(out@ =~= encode_region(stack.data_records().subrange(0, 0)));
    }
    let mut i: usize = 0;
    while i < n
        invariant
            stack.wf(),
            n == stack.data_records().len(),
            i <= n,
            out@ == encode_region(stack.data_records().subrange(0, i as int)),
        decreases n - i,
    {
        let rec = stack.data_record_at(i);
        proof {
            crate::stack::lemma_stack_costs(*stack);
            crate::stack::lemma_region_record_bound(stack.data_records(), i as int);
        }
        let mut lp = crate::felt::u32_to_bytes_be(rec.len() as u32);
        out.append(&mut lp);
        append_copy(&mut out, rec);
        proof {
            lemma_encode_region_snoc(stack.data_records().subrange(0, i as int), rec@);
            assert(stack.data_records().subrange(0, i + 1) =~= stack.data_records().subrange(
                0,
                i as int,
            ).push(rec@));
            assert(out@ =~= encode_region(stack.data_records().subrange(0, i + 1)));
        }
        i = i + 1;
    }
    proof {
        assert(stack.data_records().subrange(0, n as int) =~= stack.data_records());
    }
    out
}

fn encode_task_block(stack: &Stack) -> (out: Vec<u8>)
    requires
        stack.wf(),
    ensures
        out@ == encode_region(stack.task_frames()),
{
    proof {
        crate::stack::lemma_stack_costs(*stack);
    }
    let mut out: Vec<u8> = Vec::new();
    let n = stack.task_len();
    proof {
        assert(out@ =~= encode_region(stack.task_frames().subrange(0, 0)));
    }
    let mut i: usize = 0;
    while i < n
        invariant
            stack.wf(),
            n == stack.task_frames().len(),
            i <= n,
            out@ == encode_region(stack.task_frames().subrange(0, i as int)),
        decreases n - i,
    {
        let frame = stack.task_frame_at(i);
        proof {
            crate::stack::lemma_stack_costs(*stack);
            crate::stack::lemma_region_record_bound(stack.task_frames(), i as int);
        }
        let mut lp = crate::felt::u32_to_bytes_be(frame.len() as u32);
        out.append(&mut lp);
        append_copy(&mut out, frame);
        proof {
            lemma_encode_region_snoc(stack.task_frames().subrange(0, i as int), frame@);
            assert(stack.task_frames().subrange(0, i + 1) =~= stack.task_frames().subrange(
                0,
                i as int,
            ).push(frame@));
            assert(out@ =~= encode_region(stack.task_frames().subrange(0, i + 1)));
        }
        i = i + 1;
    }
    proof {
        assert(stack.task_frames().subrange(0, n as int) =~= stack.task_frames());
    }
    out
}

/// Persists a whole session: both regions and the proof, each as a
/// length-prefixed block.  Resuming from these bytes continues the session
/// exactly where it stopped.
pub fn encode_checkpoint(stack: &Stack) -> (out: Vec<u8>)
    requires
        stack.wf(),
    ensures
        out@ == checkpoint_spec(
            stack.data_records(),
            stack.task_frames(),
            stack.proof_model(),
        ),
{
    proof {
        crate::stack::lemma_stack_proof_wf(*stack);
    }
    let db = encode_data_block(stack);
    let tb = encode_task_block(stack);
    let pb = encode_proof(stack.proof_view());
    let mut out = crate::felt::u64_to_bytes_be(db.len() as u64);
    append_copy(&mut out, &db);
    let mut lp = crate::felt::u64_to_bytes_be(tb.len() as u64);
    out.append(&mut lp);
    append_copy(&mut out, &tb);
    let mut lp = crate::felt::u64_to_bytes_be(pb.len() as u64);
    out.append(&mut lp);
    append_copy(&mut out, &pb);
    proof {
        assert(out@ =~= checkpoint_spec(
            stack.data_records(),
            stack.task_frames(),
            stack.proof_model(),
        ));
    }
    out
}

pub open spec fn opt_prepend(pre: Seq<Seq<u8>>, o: Option<Seq<Seq<u8>>>) -> Option<
    Seq<Seq<u8>>,
> {
    match o {
        Some(rest) => Some(pre + rest),
        None => None,
    }
}

fn parse_region_exec(b: &Vec<u8>) -> (r: Option<Vec<Vec<u8>>>)
    ensures
        match r {
            Some(v) => parse_region(b@) == Some(v@.map_values(|x: Vec<u8>| x@)),
            None => parse_region(b@) is None,
        },
{
    let blen = b.len();
    let mut out: Vec<Vec<u8>> = Vec::new();
    let mut off: usize = 0;
    proof {
        assert(out@.map_values(|x: Vec<u8>| x@) =~= Seq::<Seq<u8>>::empty());
        assert(b@.skip(0) =~= b@);
    }
    while off < blen
        invariant
            blen == b@.len(),
            off <= blen,
            parse_region(b@) == opt_prepend(
                out@.map_values(|x: Vec<u8>| x@),
                parse_region(b@.skip(off as int)),
            ),
        decreases blen - off,
    {
        let ghost old_off = off as int;
        let ghost pre = out@.map_values(|x: Vec<u8>| x@);
        if blen - off < 4 {
            return None;
        }
        let l64 = read_be_at(b, off, 4);
        proof {
            assert(b@.skip(old_off).subrange(0, 4) =~= b@.subrange(old_off, old_off + 4));
            lemma_be_value_bound(b@.subrange(old_off, old_off + 4));
            assert(pow256(4) == 0x1_0000_0000) by {
                reveal_with_fuel(pow256, 5);
            }
        }
        if l64 > (blen - off - 4) as u64 {
            proof {
                assert(b@.skip(old_off).len() < 4 + l64 as int);
                assert(parse_region(b@.skip(old_off)) is None);
            }
            return None;
        }
        let l = l64 as usize;
        let rec = copy_range(b, off + 4, l);
        proof {
            assert(b@.skip(old_off).subrange(4, 4 + l as int) =~= b@.subrange(
                old_off + 4,
                old_off + 4 + l as int,
            ));
            assert(b@.skip(old_off).skip(4 + l as int) =~= b@.skip(old_off + 4 + l as int));
        }
        out.push(rec);
        off = off + 4 + l;
        proof {
            assert(out@.map_values(|x: Vec<u8>| x@) =~= pre.push(
                b@.subrange(old_off + 4, old_off + 4 + l as int),
            ));
            assert(parse_region(b@.skip(old_off)) == opt_prepend(
                seq![b@.subrange(old_off + 4, old_off + 4 + l as int)],
                parse_region(b@.skip(off as int)),
            ));
            match parse_region(b@.skip(off as int)) {
                Some(rest) => {
                    assert(pre + (seq![
                        b@.subrange(old_off + 4, old_off + 4 + l as int),
                    ] + rest) =~= pre.push(b@.subrange(old_off + 4, old_off + 4 + l as int))
                        + rest);
                },
                None => {},
            }
        }
    }
    proof {
        assert(b@.skip(off as int) =~= Seq::<u8>::empty());
        assert(parse_region(b@.skip(off as int)) == Some(Seq::<Seq<u8>>::empty()));
        assert(out@.map_values(|x: Vec<u8>| x@) + Seq::<Seq<u8>>::empty() =~= out@.map_values(
            |x: Vec<u8>| x@,
        ));
    }
    Some(out)
}

/// Rebuilds a session from a persisted checkpoint, under the given region
/// bounds; corrupted bytes are the malformed outcome, and the capacity
/// outcome arises exactly when a persisted region does not fit its bound.
pub fn decode_checkpoint(bytes: &Vec<u8>, data_capacity: usize, task_capacity: usize) -> (r:
    Result<Stack, EngineError>)
    requires
        data_capacity <= crate::stack::MAX_REGION_CAPACITY,
        task_capacity <= crate::stack::MAX_REGION_CAPACITY,
    ensures
        match r {
            Ok(st) => st.wf() && parse_checkpoint(bytes@) == Some(
                (st.data_records(), st.task_frames(), st.proof_model()),
            ) && st.data_cap() == data_capacity && st.task_cap() == task_capacity,
            Err(e) => (e == EngineError::MalformedProof && parse_checkpoint(bytes@) is None) || (e
                == EngineError::CapacityExceeded && match parse_checkpoint(bytes@) {
                Some((dv, fv, pm)) => crate::stack::region_cost(dv) > data_capacity
                    || crate::stack::region_cost(fv) > task_capacity,
                None => false,
            }),
        },
{
    let blen = bytes.len();
    let blen64 = blen as u64;
    if blen < 8 {
        return Err(EngineError::MalformedProof);
    }
    let l1 = read_be_at(bytes, 0, 8);
    if blen64 < 16 || l1 > blen64 - 16 {
        return Err(EngineError::MalformedProof);
    }
    let l1u = l1 as usize;
    let l2 = read_be_at(bytes, 8 + l1u, 8);
    if blen64 - 16 - l1 < 8 || l2 > blen64 - 24 - l1 {
        return Err(EngineError::MalformedProof);
    }
    let l2u = l2 as usize;
    let l3 = read_be_at(bytes, 16 + l1u + l2u, 8);
    if l3 != blen64 - 24 - l1 - l2 {
        return Err(EngineError::MalformedProof);
    }
    let l3u = l3 as usize;
    let db = copy_range(bytes, 8, l1u);
    let tb = copy_range(bytes, 16 + l1u, l2u);
    let pb = copy_range(bytes, 24 + l1u + l2u, l3u);
    let data = match parse_region_exec(&db) {
        Some(v) => v,
        None => {
            return Err(EngineError::MalformedProof);
        },
    };
    let frames = match parse_region_exec(&tb) {
        Some(v) => v,
        None => {
            return Err(EngineError::MalformedProof);
        },
    };
    let p = match parse_proof(&pb) {
        Ok(p) => p,
        Err(_) => {
            return Err(EngineError::MalformedProof);
        },
    };
    let ghost dviews = data@.map_values(|x: Vec<u8>| x@);
    let ghost fviews = frames@.map_values(|x: Vec<u8>| x@);
    let ghost pm = p@;
    proof {
        assert(parse_checkpoint(bytes@) == Some((dviews, fviews, pm)));
    }
    let mut st = Stack::new(p, data_capacity, task_capacity);
    let mut data = data;
    let mut i: usize = 0;
    let nd = data.len();
    while i < nd
        invariant
            st.wf(),
            st.data_cap() == data_capacity,
            st.task_cap() == task_capacity,
            st.proof_model() == pm,
            parse_checkpoint(bytes@) == Some((dviews, fviews, pm)),
            i <= nd,
            nd == dviews.len(),
            data@.len() == nd - i,
            forall|k: int| 0 <= k < nd - i ==> data@[k]@ == dviews[k + i],
            st.data_records() == dviews.subrange(0, i as int),
            st.task_frames().len() == 0,
        decreases nd - i,
    {
        let rec = data.remove(0);
        proof {
            assert(rec@ == dviews[i as int]);
        }
        match st.push_data(rec) {
            Ok(()) => {},
            Err(_) => {
                proof {
                    assert(dviews.subrange(0, i + 1).drop_last() =~= dviews.subrange(0, i as int));
                    assert(dviews.subrange(0, i + 1).last() == dviews[i as int]);
                    crate::stack::lemma_region_cost_prefix(dviews, i + 1);
                }
                return Err(EngineError::CapacityExceeded);
            },
        }
        i = i + 1;
        proof {
            assert(st.data_records() =~= dviews.subrange(0, i as int));
        }
    }
    proof {
        assert(st.data_records() =~= dviews);
    }
    let mut frames = frames;
    let mut i: usize = 0;
    let nf = frames.len();
    while i < nf
        invariant
            st.wf(),
            st.data_cap() == data_capacity,
            st.task_cap() == task_capacity,
            st.proof_model() == pm,
            parse_checkpoint(bytes@) == Some((dviews, fviews, pm)),
            i <= nf,
            nf == fviews.len(),
            frames@.len() == nf - i,
            forall|k: int| 0 <= k < nf - i ==> frames@[k]@ == fviews[k + i],
            st.data_records() == dviews,
            st.task_frames() == fviews.subrange(0, i as int),
        decreases nf - i,
    {
        let fr = frames.remove(0);
        proof {
            assert(fr@ == fviews[i as int]);
        }
        match st.push_task(fr) {
            Ok(()) => {},
            Err(_) => {
                proof {
                    assert(fviews.subrange(0, i + 1).drop_last() =~= fviews.subrange(0, i as int));
                    assert(fviews.subrange(0, i + 1).last() == fviews[i as int]);
                    crate::stack::lemma_region_cost_prefix(fviews, i + 1);
                }
                return Err(EngineError::CapacityExceeded);
            },
        }
        i = i + 1;
        proof {
            assert(st.task_frames() =~= fviews.subrange(0, i as int));
        }
    }
    proof {
        assert(st.task_frames() =~= fviews);
    }
    Ok(st)
}


/// Session round trip: persisting any well-formed session and reading the
/// bytes back yields exactly the same data region, task region and proof —
/// so a run that checkpoints between ticks goes through the same states as an
/// uninterrupted one, whatever the batching.
pub proof fn lemma_session_roundtrip(s: Stack)
    requires
        s.wf(),
    ensures
        parse_checkpoint(checkpoint_spec(s.data_records(), s.task_frames(), s.proof_model()))
            == Some((s.data_records(), s.task_frames(), s.proof_model())),
{
    crate::stack::lemma_stack_costs(s);
    crate::stack::lemma_stack_proof_wf(s);
    let data = s.data_records();
    let frames = s.task_frames();
    let p = s.proof_model();
    assert forall|i: int| 0 <= i < data.len() implies (#[trigger] data[i]).len()
        < 0x1_0000_0000 by {
        crate::stack::lemma_region_record_bound(data, i);
        crate::stack::lemma_region_cost_nonneg(data);
    }
    assert forall|i: int| 0 <= i < frames.len() implies (#[trigger] frames[i]).len()
        < 0x1_0000_0000 by {
        crate::stack::lemma_region_record_bound(frames, i);
        crate::stack::lemma_region_cost_nonneg(frames);
    }
    lemma_encode_region_len(data);
    lemma_encode_region_len(frames);
    assert(encode_proof_spec(p).len() == 20 + 8 * proof_felts(p).len());
    lemma_checkpoint_roundtrip(data, frames, p);
}

} // verus!
