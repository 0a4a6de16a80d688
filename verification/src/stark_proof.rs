//! The validated, structured form of a proof: its public input and its
//! commitment section.  Raw proof bytes are parsed into this shape exactly
//! once, at ingestion; every later phase works on the checked value.

use vstd::prelude::*;
use crate::felt::Felt;

verus! {

/// One memory access of the main page: an (address, value) pair.
#[derive(Clone, Copy, Debug, PartialEq, Eq, Structural)]
pub struct PageEntry {
    pub address: Felt,
    pub value: Felt,
}

/// One memory segment of the public input.
#[derive(Clone, Copy, Debug, PartialEq, Eq, Structural)]
pub struct Segment {
    pub begin_addr: Felt,
    pub stop_ptr: Felt,
}

/// Metadata of an auxiliary contiguous memory page.
#[derive(Clone, Copy, Debug, PartialEq, Eq, Structural)]
pub struct PageHeader {
    pub start_address: Felt,
    pub size: Felt,
    pub hash: Felt,
}

/// The public input carried by a proof.
#[derive(Clone, Debug)]
pub struct PublicInput {
    pub log_n_steps: Felt,
    pub range_check_min: Felt,
    pub range_check_max: Felt,
    pub layout: Felt,
    pub dynamic_params: Vec<Felt>,
    pub segments: Vec<Segment>,
    pub padding_addr: Felt,
    pub padding_value: Felt,
    pub main_page: Vec<PageEntry>,
    pub continuous_page_headers: Vec<PageHeader>,
}

/// A structurally validated proof.
#[derive(Clone, Debug)]
pub struct Proof {
    pub public_input: PublicInput,
    pub commitments: Vec<Felt>,
    pub claimed_composition: Felt,
    pub declared_hash: Felt,
}

/// The mathematical shape of a public input.
#[verifier::ext_equal]
pub ghost struct PublicInputModel {
    pub log_n_steps: Felt,
    pub range_check_min: Felt,
    pub range_check_max: Felt,
    pub layout: Felt,
    pub dynamic_params: Seq<Felt>,
    pub segments: Seq<Segment>,
    pub padding_addr: Felt,
    pub padding_value: Felt,
    pub main_page: Seq<PageEntry>,
    pub continuous_page_headers: Seq<PageHeader>,
}

/// The mathematical shape of a proof.
#[verifier::ext_equal]
pub ghost struct ProofModel {
    pub public_input: PublicInputModel,
    pub commitments: Seq<Felt>,
    pub claimed_composition: Felt,
    pub declared_hash: Felt,
}

impl View for PublicInput {
    type V = PublicInputModel;

    open spec fn view(&self) -> PublicInputModel {
        PublicInputModel {
            log_n_steps: self.log_n_steps,
            range_check_min: self.range_check_min,
            range_check_max: self.range_check_max,
            layout: self.layout,
            dynamic_params: self.dynamic_params@,
            segments: self.segments@,
            padding_addr: self.padding_addr,
            padding_value: self.padding_value,
            main_page: self.main_page@,
            continuous_page_headers: self.continuous_page_headers@,
        }
    }
}

impl View for Proof {
    type V = ProofModel;

    open spec fn view(&self) -> ProofModel {
        ProofModel {
            public_input: self.public_input@,
            commitments: self.commitments@,
            claimed_composition: self.claimed_composition,
            declared_hash: self.declared_hash,
        }
    }
}

impl PublicInputModel {
    /// Structural well-formedness: every field element canonical and every
    /// section small enough for the length-prefixed wire format.
    pub open spec fn wf(self) -> bool {
        &&& self.log_n_steps.wf()
        &&& self.range_check_min.wf()
        &&& self.range_check_max.wf()
        &&& self.layout.wf()
        &&& self.padding_addr.wf()
        &&& self.padding_value.wf()
        &&& forall|i: int| 0 <= i < self.dynamic_params.len() ==> (#[trigger] self.dynamic_params[i]).wf()
        &&& forall|i: int|
            0 <= i < self.segments.len() ==> (#[trigger] self.segments[i]).begin_addr.wf()
                && self.segments[i].stop_ptr.wf()
        &&& forall|i: int|
            0 <= i < self.main_page.len() ==> (#[trigger] self.main_page[i]).address.wf()
                && self.main_page[i].value.wf()
        &&& forall|i: int|
            0 <= i < self.continuous_page_headers.len() ==> (
            #[trigger] self.continuous_page_headers[i]).start_address.wf()
                && self.continuous_page_headers[i].size.wf()
                && self.continuous_page_headers[i].hash.wf()
        &&& self.dynamic_params.len() < 0x1_0000_0000
        &&& self.segments.len() < 0x1_0000_0000
        &&& self.main_page.len() < 0x1_0000_0000
        &&& self.continuous_page_headers.len() < 0x1_0000_0000
    }
}

impl ProofModel {
    pub open spec fn wf(self) -> bool {
        &&& self.public_input.wf()
        &&& forall|i: int| 0 <= i < self.commitments.len() ==> (#[trigger] self.commitments[i]).wf()
        &&& self.commitments.len() < 0x1_0000_0000
        &&& self.claimed_composition.wf()
        &&& self.declared_hash.wf()
    }
}

impl Proof {
    pub open spec fn wf(self) -> bool {
        self@.wf()
    }
}

/// Every segment must begin no later than it stops.
pub open spec fn segments_valid(s: Seq<Segment>) -> bool {
    forall|i: int|
        0 <= i < s.len() ==> (#[trigger] s[i]).begin_addr.v <= s[i].stop_ptr.v
}

/// Main-page addresses must be strictly increasing: the page is an ordered
/// memory, and a repeated or out-of-order address is inconsistent.
pub open spec fn main_page_valid(s: Seq<PageEntry>) -> bool {
    forall|i: int|
        1 <= i < s.len() ==> (#[trigger] s[i]).address.v > s[i - 1].address.v
}

/// Continuous pages must be non-empty.
pub open spec fn page_headers_valid(s: Seq<PageHeader>) -> bool {
    forall|i: int| 0 <= i < s.len() ==> (#[trigger] s[i]).size.v >= 1
}

pub open spec fn range_check_valid(p: PublicInputModel) -> bool {
    p.range_check_min.v <= p.range_check_max.v
}

pub fn check_segments(s: &Vec<Segment>) -> (r: bool)
    ensures
        r == segments_valid(s@),
{
    let mut i: usize = 0;
    while i < s.len()
        invariant
            i <= s@.len(),
            forall|k: int| 0 <= k < i ==> (#[trigger] s@[k]).begin_addr.v <= s@[k].stop_ptr.v,
        decreases s@.len() - i,
    {
        if s[i].begin_addr.v > s[i].stop_ptr.v {
            return false;
        }
        i = i + 1;
    }
    true
}

pub fn check_main_page(s: &Vec<PageEntry>) -> (r: bool)
    ensures
        r == main_page_valid(s@),
{
    let mut i: usize = 1;
    while i < s.len()
        invariant
            1 <= i,
            forall|k: int| 1 <= k < i ==> (#[trigger] s@[k]).address.v > s@[k - 1].address.v,
        decreases s@.len() - i,
    {
        if s[i].address.v <= s[i - 1].address.v {
            return false;
        }
        i = i + 1;
    }
    true
}

pub fn check_page_headers(s: &Vec<PageHeader>) -> (r: bool)
    ensures
        r == page_headers_valid(s@),
{
    let mut i: usize = 0;
    while i < s.len()
        invariant
            i <= s@.len(),
            forall|k: int| 0 <= k < i ==> (#[trigger] s@[k]).size.v >= 1,
        decreases s@.len() - i,
    {
        if s[i].size.v < 1 {
            return false;
        }
        i = i + 1;
    }
    true
}

} // verus!
