//! Field elements: values of the prime field underlying the proof arithmetic,
//! with canonical big-endian byte encoding.

use vstd::prelude::*;
use vstd::arithmetic::mul::lemma_mul_upper_bound;
use vstd::arithmetic::div_mod::lemma_div_denominator;

verus! {

/// The field modulus: the 64-bit STARK-friendly prime `2^64 - 2^32 + 1`.
pub const FIELD_MODULUS: u64 = 0xffff_ffff_0000_0001;

/// Number of bytes in the canonical encoding of a field element.
pub const FELT_BYTES: usize = 8;

/// An element of the prime field, kept in canonical (fully reduced) form.
#[derive(Clone, Copy, Debug, PartialEq, Eq, Structural)]
pub struct Felt {
    pub v: u64,
}

/// `256^k`, the weight of a byte position in a big-endian encoding.
pub open spec fn pow256(k: nat) -> int
    decreases k,
{
    if k == 0 {
        1
    } else {
        256 * pow256((k - 1) as nat)
    }
}

/// The integer value of a big-endian byte string.
pub open spec fn be_value(s: Seq<u8>) -> int
    decreases s.len(),
{
    if s.len() == 0 {
        0
    } else {
        be_value(s.drop_last()) * 256 + s.last()
    }
}

/// The canonical `n`-byte big-endian encoding of a bounded value.
pub open spec fn be_bytes(v: int, n: nat) -> Seq<u8> {
    Seq::new(n, |j: int| ((v / pow256((n - 1 - j) as nat)) % 256) as u8)
}

/// The canonical eight-byte big-endian encoding of a 64-bit value.
pub open spec fn be_bytes8(v: u64) -> Seq<u8> {
    be_bytes(v as int, 8)
}

/// The canonical four-byte big-endian encoding of a 32-bit value.
pub open spec fn be_bytes4(v: u32) -> Seq<u8> {
    be_bytes(v as int, 4)
}

/// The field element denoted by an arbitrary byte record: its big-endian
/// value reduced modulo the field prime, one byte at a time.
pub open spec fn record_felt(s: Seq<u8>) -> int
    decreases s.len(),
{
    if s.len() == 0 {
        0
    } else {
        (record_felt(s.drop_last()) * 256 + s.last()) % (FIELD_MODULUS as int)
    }
}

pub proof fn lemma_pow256_pos(k: nat)
    ensures
        pow256(k) >= 1,
    decreases k,
{
    if k > 0 {
        lemma_pow256_pos((k - 1) as nat);
    }
}

pub proof fn lemma_pow256_8()
    ensures
        pow256(8) == 0x1_0000_0000_0000_0000,
{
    reveal_with_fuel(pow256, 9);
}

/// Reading the canonical encoding back yields the encoded value: for every
/// prefix length `j`, the prefix denotes the top `j` bytes of `v`.
proof fn lemma_be_bytes_prefix(v: int, n: nat, j: int)
    requires
        0 <= v < pow256(n),
        0 <= j <= n,
    ensures
        be_value(be_bytes(v, n).subrange(0, j)) == v / pow256((n - j) as nat),
    decreases j,
{
    if j == 0 {
        assert(be_bytes(v, n).subrange(0, 0) =~= Seq::<u8>::empty());
        lemma_pow256_pos(n);
        assert(v / pow256(n) == 0) by {
            vstd::arithmetic::div_mod::lemma_basic_div(v, pow256(n));
        }
    } else {
        lemma_be_bytes_prefix(v, n, j - 1);
        let s = be_bytes(v, n).subrange(0, j);
        assert(s.drop_last() =~= be_bytes(v, n).subrange(0, j - 1));
        assert(s.last() == be_bytes(v, n)[j - 1]);
        let small = pow256((n - j) as nat);
        let big = pow256((n - j + 1) as nat);
        lemma_pow256_pos((n - j) as nat);
        assert(big == 256 * small);
        let x = v / small;
        assert(v / big == x / 256) by {
            lemma_div_denominator(v, small, 256);
        }
        assert(x == 256 * (x / 256) + x % 256) by {
            vstd::arithmetic::div_mod::lemma_fundamental_div_mod(x, 256);
        }
        assert(be_value(s) == be_value(s.drop_last()) * 256 + s.last());
    }
}

pub proof fn lemma_be_bytes_value(v: int, n: nat)
    requires
        0 <= v < pow256(n),
    ensures
        be_bytes(v, n).len() == n,
        be_value(be_bytes(v, n)) == v,
{
    lemma_be_bytes_prefix(v, n, n as int);
    assert(be_bytes(v, n).subrange(0, n as int) =~= be_bytes(v, n));
    assert(pow256(0) == 1);
}

pub proof fn lemma_be_bytes8_value(v: u64)
    ensures
        be_bytes8(v).len() == 8,
        be_value(be_bytes8(v)) == v,
{
    lemma_pow256_8();
    lemma_be_bytes_value(v as int, 8);
}

pub proof fn lemma_be_bytes4_value(v: u32)
    ensures
        be_bytes4(v).len() == 4,
        be_value(be_bytes4(v)) == v,
{
    assert(pow256(4) == 0x1_0000_0000) by {
        reveal_with_fuel(pow256, 5);
    }
    lemma_be_bytes_value(v as int, 4);
}

impl Felt {
    /// Canonical form: the representative is reduced modulo the field prime.
    pub open spec fn wf(self) -> bool {
        self.v < FIELD_MODULUS
    }

    pub fn zero() -> (r: Felt)
        ensures
            r.v == 0,
            r.wf(),
    {
        Felt { v: 0 }
    }

    pub fn one() -> (r: Felt)
        ensures
            r.v == 1,
            r.wf(),
    {
        Felt { v: 1 }
    }

    pub fn from_u64(x: u64) -> (r: Felt)
        ensures
            r.v == x as int % FIELD_MODULUS as int,
            r.wf(),
    {
        Felt { v: x % FIELD_MODULUS }
    }

    /// Field addition.
    pub fn add(self, rhs: Felt) -> (r: Felt)
        requires
            self.wf(),
            rhs.wf(),
        ensures
            r.wf(),
            r.v as int == (self.v + rhs.v) % (FIELD_MODULUS as int),
    {
        let s: u128 = self.v as u128 + rhs.v as u128;
        let m: u128 = FIELD_MODULUS as u128;
        Felt { v: (s % m) as u64 }
    }

    /// Field multiplication.
    pub fn mul(self, rhs: Felt) -> (r: Felt)
        requires
            self.wf(),
            rhs.wf(),
        ensures
            r.wf(),
            r.v as int == (self.v * rhs.v) % (FIELD_MODULUS as int),
    {
        proof {
            lemma_mul_upper_bound(
                self.v as int,
                0xffff_ffff_ffff_ffff,
                rhs.v as int,
                0xffff_ffff_ffff_ffff,
            );
        }
        let p: u128 = (self.v as u128) * (rhs.v as u128);
        let m: u128 = FIELD_MODULUS as u128;
        Felt { v: (p % m) as u64 }
    }

    /// The ordering of canonical representatives, as the proof format needs it.
    pub fn lt(self, rhs: Felt) -> (r: bool)
        ensures
            r == (self.v < rhs.v),
    {
        self.v < rhs.v
    }

    pub fn le(self, rhs: Felt) -> (r: bool)
        ensures
            r == (self.v <= rhs.v),
    {
        self.v <= rhs.v
    }

    /// Canonical big-endian encoding, eight bytes.
    pub fn to_bytes_be(self) -> (out: Vec<u8>)
        ensures
            out@ == be_bytes8(self.v),
    {
        let mut out: Vec<u8> = Vec::new();
        let mut d: u64 = 0x0100_0000_0000_0000;
        proof {
            reveal_with_fuel(pow256, 9);
        }
        let mut j: usize = 0;
        while j < 8
            invariant
                j <= 8,
                out@.len() == j,
                forall|i: int| 0 <= i < j ==> out@[i] == be_bytes8(self.v)[i],
                j < 8 ==> d as int == pow256((7 - j) as nat),
            decreases 8 - j,
        {
            proof {
                lemma_pow256_pos((7 - j) as nat);
            }
            out.push(((self.v / d) % 256) as u8);
            if j < 7 {
                proof {
                    assert(pow256((7 - j) as nat) == 256 * pow256((6 - j) as nat));
                    assert(256 * pow256((6 - j) as nat) / 256 == pow256((6 - j) as nat))
                        by {
                        vstd::arithmetic::div_mod::lemma_div_by_multiple(
                            pow256((6 - j) as nat),
                            256,
                        );
                    }
                }
                d = d / 256;
            }
            j = j + 1;
        }
        proof {
            assert(out@ =~= be_bytes8(self.v));
        }
        out
    }

    /// Strict decoding of a canonical encoding: exactly eight bytes whose
    /// value is a reduced field representative.
    pub fn from_bytes_be(bytes: &[u8]) -> (r: Option<Felt>)
        ensures
            match r {
                Some(f) => f.wf() && bytes@.len() == 8 && f.v as int == be_value(bytes@),
                None => bytes@.len() != 8 || be_value(bytes@) >= FIELD_MODULUS,
            },
    {
        if bytes.len() != 8 {
            return None;
        }
        proof {
            reveal_with_fuel(pow256, 9);
        }
        let mut acc: u64 = 0;
        let mut j: usize = 0;
        while j < 8
            invariant
                j <= 8,
                bytes@.len() == 8,
                acc as int == be_value(bytes@.subrange(0, j as int)),
                (acc as int) < pow256(j as nat),
                pow256(8) == 0x1_0000_0000_0000_0000,
            decreases 8 - j,
        {
            proof {
                assert(pow256((j + 1) as nat) == 256 * pow256(j as nat));
                assert(bytes@.subrange(0, j + 1).drop_last() =~= bytes@.subrange(0, j as int));
                assert(bytes@.subrange(0, j + 1).last() == bytes@[j as int]);
                lemma_pow256_mono((j + 1) as nat, 8);
                assert(256 * (acc as int) + 255 < 256 * pow256(j as nat));
            }
            acc = acc * 256 + (bytes[j] as u64);
            j = j + 1;
        }
        proof {
            assert(bytes@.subrange(0, 8) =~= bytes@);
        }
        if acc < FIELD_MODULUS {
            Some(Felt { v: acc })
        } else {
            None
        }
    }
}

proof fn lemma_pow256_mono(j: nat, k: nat)
    requires
        j <= k,
    ensures
        pow256(j) <= pow256(k),
    decreases k,
{
    if j < k {
        lemma_pow256_mono(j, (k - 1) as nat);
        lemma_pow256_pos((k - 1) as nat);
    }
}

/// Reads an arbitrary byte record as a field element, reducing as it goes.
pub fn felt_of_record(bytes: &Vec<u8>) -> (r: Felt)
    ensures
        r.wf(),
        r.v as int == record_felt(bytes@),
{
    let m: u128 = FIELD_MODULUS as u128;
    let mut acc: u64 = 0;
    let mut j: usize = 0;
    while j < bytes.len()
        invariant
            j <= bytes@.len(),
            m == FIELD_MODULUS as u128,
            acc < FIELD_MODULUS,
            acc as int == record_felt(bytes@.subrange(0, j as int)),
        decreases bytes@.len() - j,
    {
        proof {
            assert(bytes@.subrange(0, j + 1).drop_last() =~= bytes@.subrange(0, j as int));
            assert(bytes@.subrange(0, j + 1).last() == bytes@[j as int]);
        }
        acc = (((acc as u128) * 256 + (bytes[j] as u128)) % m) as u64;
        j = j + 1;
    }
    proof {
        assert(bytes@.subrange(0, bytes@.len() as int) =~= bytes@);
    }
    Felt { v: acc }
}

/// The field element a byte record denotes.
pub open spec fn felt_of_record_spec(s: Seq<u8>) -> Felt {
    Felt { v: record_felt(s) as u64 }
}

pub proof fn lemma_be_value_bound(s: Seq<u8>)
    ensures
        0 <= be_value(s),
        be_value(s) < pow256(s.len()),
    decreases s.len(),
{
    if s.len() == 0 {
    } else {
        lemma_be_value_bound(s.drop_last());
        assert(pow256(s.len()) == 256 * pow256((s.len() - 1) as nat));
    }
}

/// The canonical big-endian encoding of a 32-bit count.
pub fn u32_to_bytes_be(v: u32) -> (out: Vec<u8>)
    ensures
        out@ == be_bytes4(v),
{
    proof {
        reveal_with_fuel(pow256, 5);
    }
    let mut out: Vec<u8> = Vec::new();
    out.push(((v / 0x0100_0000) % 256) as u8);
    out.push(((v / 0x1_0000) % 256) as u8);
    out.push(((v / 0x100) % 256) as u8);
    out.push((v % 256) as u8);
    proof {
        assert(out@ =~= be_bytes4(v));
    }
    out
}

/// The canonical big-endian encoding of a raw 64-bit value.
pub fn u64_to_bytes_be(v: u64) -> (out: Vec<u8>)
    ensures
        out@ == be_bytes8(v),
{
    Felt { v }.to_bytes_be()
}

/// Reads `n <= 8` bytes at `off` as a big-endian integer.
pub fn read_be_at(bytes: &Vec<u8>, off: usize, n: usize) -> (r: u64)
    requires
        n <= 8,
        off + n <= bytes@.len(),
    ensures
        r as int == be_value(bytes@.subrange(off as int, off as int + n)),
{
    proof {
        lemma_pow256_8();
    }
    let max_len = bytes.len();
    let mut acc: u64 = 0;
    let mut j: usize = 0;
    while j < n
        invariant
            j <= n,
            n <= 8,
            off + n <= max_len,
            off + n <= bytes@.len(),
            acc as int == be_value(bytes@.subrange(off as int, off as int + j)),
            (acc as int) < pow256(j as nat),
            pow256(8) == 0x1_0000_0000_0000_0000,
        decreases n - j,
    {
        proof {
            assert(pow256((j + 1) as nat) == 256 * pow256(j as nat));
            assert(bytes@.subrange(off as int, off as int + j + 1).drop_last() =~= bytes@.subrange(
                off as int,
                off as int + j,
            ));
            assert(bytes@.subrange(off as int, off as int + j + 1).last() == bytes@[off + j]);
            lemma_pow256_mono((j + 1) as nat, 8);
            assert(256 * (acc as int) + 255 < 256 * pow256(j as nat));
        }
        acc = acc * 256 + (bytes[off + j] as u64);
        j = j + 1;
    }
    acc
}

} // verus!
