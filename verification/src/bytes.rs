//! Big-endian and little-endian scalar readers over byte slices, with
//! exact specifications, plus range comparison and NUL scanning.

use vstd::prelude::*;

verus! {

/// The value of the 2-byte big-endian integer at `pos`.
pub open spec fn spec_u16_be(d: Seq<u8>, pos: int) -> int {
    d[pos] * 0x100 + d[pos + 1]
}

/// The value of the 4-byte big-endian integer at `pos`.
pub open spec fn spec_u32_be(d: Seq<u8>, pos: int) -> int {
    d[pos] * 0x1000000 + d[pos + 1] * 0x10000 + d[pos + 2] * 0x100 + d[pos + 3]
}

/// The value of the 8-byte big-endian integer at `pos`.
pub open spec fn spec_u64_be(d: Seq<u8>, pos: int) -> int {
    spec_u32_be(d, pos) * 0x100000000 + spec_u32_be(d, pos + 4)
}

pub fn u16_be(d: &[u8], pos: usize) -> (r: u16)
    requires
        pos + 2 <= d@.len(),
    ensures
        r == spec_u16_be(d@, pos as int),
{
    d[pos] as u16 * 0x100 + d[pos + 1] as u16
}

pub fn u32_be(d: &[u8], pos: usize) -> (r: u32)
    requires
        pos + 4 <= d@.len(),
    ensures
        r == spec_u32_be(d@, pos as int),
{
    d[pos] as u32 * 0x1000000 + d[pos + 1] as u32 * 0x10000 + d[pos + 2] as u32 * 0x100
        + d[pos + 3] as u32
}

pub fn u64_be(d: &[u8], pos: usize) -> (r: u64)
    requires
        pos + 8 <= d@.len(),
    ensures
        r == spec_u64_be(d@, pos as int),
{
    let n = d.len();
    let hi = u32_be(d, pos);
    let lo = u32_be(d, pos + 4);
    hi as u64 * 0x100000000 + lo as u64
}

/// The 8 little-endian bytes of a 64-bit value.
pub open spec fn spec_u64_le(n: int) -> Seq<u8> {
    seq![
        (n % 0x100) as u8,
        ((n / 0x100) % 0x100) as u8,
        ((n / 0x10000) % 0x100) as u8,
        ((n / 0x1000000) % 0x100) as u8,
        ((n / 0x100000000) % 0x100) as u8,
        ((n / 0x10000000000) % 0x100) as u8,
        ((n / 0x1000000000000) % 0x100) as u8,
        ((n / 0x100000000000000) % 0x100) as u8,
    ]
}

/// The value of the 8-byte little-endian integer at `pos`.
pub open spec fn spec_u64_le_at(d: Seq<u8>, pos: int) -> int {
    d[pos] + d[pos + 1] * 0x100 + d[pos + 2] * 0x10000 + d[pos + 3] * 0x1000000
        + d[pos + 4] * 0x100000000 + d[pos + 5] * 0x10000000000
        + d[pos + 6] * 0x1000000000000 + d[pos + 7] * 0x100000000000000
}

/// Reading back the little-endian bytes of `n` recovers `n`.
pub proof fn lemma_u64_le_roundtrip(n: u64, d: Seq<u8>, pos: int)
    requires
        0 <= pos,
        pos + 8 <= d.len(),
        d.subrange(pos, pos + 8) == spec_u64_le(n as int),
    ensures
        spec_u64_le_at(d, pos) == n,
{
    assert(d[pos] == (n as int % 0x100) as u8);
    assert(d[pos + 1] == ((n as int / 0x100) % 0x100) as u8);
    assert(d[pos + 2] == ((n as int / 0x10000) % 0x100) as u8);
    assert(d[pos + 3] == ((n as int / 0x1000000) % 0x100) as u8);
    assert(d[pos + 4] == ((n as int / 0x100000000) % 0x100) as u8);
    assert(d[pos + 5] == ((n as int / 0x10000000000) % 0x100) as u8);
    assert(d[pos + 6] == ((n as int / 0x1000000000000) % 0x100) as u8);
    assert(d[pos + 7] == ((n as int / 0x100000000000000) % 0x100) as u8);
    let m = n as int;
    lemma_u64_byte_sum(m);
}

proof fn lemma_quot(m: int, i: int)
    requires
        0 <= m,
        1 <= i <= 7,
    ensures
        m / pow256(i) == (m / pow256(i - 1)) / 0x100,
{
    vstd::arithmetic::div_mod::lemma_div_denominator(m, pow256(i - 1), 0x100);
    assert(pow256(i - 1) * 0x100 == pow256(i));
}

/// 256 to the power `i`, for `0 <= i <= 8`.
pub open spec fn pow256(i: int) -> int {
    if i <= 0 {
        1
    } else if i == 1 {
        0x100
    } else if i == 2 {
        0x10000
    } else if i == 3 {
        0x1000000
    } else if i == 4 {
        0x100000000
    } else if i == 5 {
        0x10000000000
    } else if i == 6 {
        0x1000000000000
    } else if i == 7 {
        0x100000000000000
    } else {
        0x10000000000000000
    }
}

proof fn lemma_u64_byte_sum(m: int)
    requires
        0 <= m < 0x10000000000000000,
    ensures
        m % 0x100 + (m / 0x100) % 0x100 * 0x100 + (m / 0x10000) % 0x100 * 0x10000 + (m / 0x1000000)
            % 0x100 * 0x1000000 + (m / 0x100000000) % 0x100 * 0x100000000 + (m / 0x10000000000)
            % 0x100 * 0x10000000000 + (m / 0x1000000000000) % 0x100 * 0x1000000000000 + (m
            / 0x100000000000000) % 0x100 * 0x100000000000000 == m,
{
    let q1 = m / 0x100;
    let q2 = q1 / 0x100;
    let q3 = q2 / 0x100;
    let q4 = q3 / 0x100;
    let q5 = q4 / 0x100;
    let q6 = q5 / 0x100;
    let q7 = q6 / 0x100;
    lemma_quot(m, 1);
    lemma_quot(m, 2);
    lemma_quot(m, 3);
    lemma_quot(m, 4);
    lemma_quot(m, 5);
    lemma_quot(m, 6);
    lemma_quot(m, 7);
    assert(m / 0x10000 == q2);
    assert(m / 0x1000000 == q3);
    assert(m / 0x100000000 == q4);
    assert(m / 0x10000000000 == q5);
    assert(m / 0x1000000000000 == q6);
    assert(m / 0x100000000000000 == q7);
    vstd::arithmetic::div_mod::lemma_fundamental_div_mod(m, 0x100);
    vstd::arithmetic::div_mod::lemma_fundamental_div_mod(q1, 0x100);
    vstd::arithmetic::div_mod::lemma_fundamental_div_mod(q2, 0x100);
    vstd::arithmetic::div_mod::lemma_fundamental_div_mod(q3, 0x100);
    vstd::arithmetic::div_mod::lemma_fundamental_div_mod(q4, 0x100);
    vstd::arithmetic::div_mod::lemma_fundamental_div_mod(q5, 0x100);
    vstd::arithmetic::div_mod::lemma_fundamental_div_mod(q6, 0x100);
    assert(q7 < 0x100) by {
        vstd::arithmetic::div_mod::lemma_multiply_divide_lt(m, 0x100, 0x100000000000000);
    };
    assert(0 <= q7) by {
        vstd::arithmetic::div_mod::lemma_div_pos_is_pos(m, 0x100000000000000);
    };
    vstd::arithmetic::div_mod::lemma_small_mod(q7 as nat, 0x100);
}

/// Append the little-endian bytes of `n` to `out`.
pub fn push_u64_le(out: &mut Vec<u8>, n: u64)
    ensures
        final(out)@ == old(out)@ + spec_u64_le(n as int),
{
    out.push((n % 0x100) as u8);
    out.push(((n / 0x100) % 0x100) as u8);
    out.push(((n / 0x10000) % 0x100) as u8);
    out.push(((n / 0x1000000) % 0x100) as u8);
    out.push(((n / 0x100000000) % 0x100) as u8);
    out.push(((n / 0x10000000000) % 0x100) as u8);
    out.push(((n / 0x1000000000000) % 0x100) as u8);
    out.push(((n / 0x100000000000000) % 0x100) as u8);
    proof {
        assert(out@ =~= old(out)@ + spec_u64_le(n as int));
    }
}

pub fn u64_le_at(d: &[u8], pos: usize) -> (r: u64)
    requires
        pos + 8 <= d@.len(),
    ensures
        r == spec_u64_le_at(d@, pos as int),
{
    d[pos] as u64 + d[pos + 1] as u64 * 0x100 + d[pos + 2] as u64 * 0x10000 + d[pos + 3] as u64
        * 0x1000000 + d[pos + 4] as u64 * 0x100000000 + d[pos + 5] as u64 * 0x10000000000 + d[pos
        + 6] as u64 * 0x1000000000000 + d[pos + 7] as u64 * 0x100000000000000
}

/// The 4 little-endian bytes of a 32-bit value.
pub open spec fn spec_u32_le(n: int) -> Seq<u8> {
    seq![
        (n % 0x100) as u8,
        ((n / 0x100) % 0x100) as u8,
        ((n / 0x10000) % 0x100) as u8,
        ((n / 0x1000000) % 0x100) as u8,
    ]
}

/// Append the little-endian bytes of `n` to `out`.
pub fn push_u32_le(out: &mut Vec<u8>, n: u32)
    ensures
        final(out)@ == old(out)@ + spec_u32_le(n as int),
{
    out.push((n % 0x100) as u8);
    out.push(((n / 0x100) % 0x100) as u8);
    out.push(((n / 0x10000) % 0x100) as u8);
    out.push(((n / 0x1000000) % 0x100) as u8);
    proof {
        assert(out@ =~= old(out)@ + spec_u32_le(n as int));
    }
}

/// Whether the bytes of `d` starting at `pos` match `pat` in full.
pub open spec fn spec_range_eq(d: Seq<u8>, pos: int, pat: Seq<u8>) -> bool {
    &&& 0 <= pos
    &&& pos + pat.len() <= d.len()
    &&& d.subrange(pos, pos + pat.len() as int) == pat
}

pub fn range_eq(d: &[u8], pos: usize, pat: &[u8]) -> (r: bool)
    ensures
        r == spec_range_eq(d@, pos as int, pat@),
{
    let n = d.len();
    if pos > n || pat.len() > n - pos {
        return false;
    }
    let mut i: usize = 0;
    while i < pat.len()
        invariant
            n == d@.len(),
            pos + pat@.len() <= n,
            i <= pat@.len(),
            forall|k: int| 0 <= k < i ==> d@[pos + k] == pat@[k],
        decreases pat@.len() - i,
    {
        if d[pos + i] != pat[i] {
            proof {
                assert(d@.subrange(pos as int, pos + pat@.len() as int)[i as int] != pat@[i as int]);
            }
            return false;
        }
        i = i + 1;
    }
    proof {
        assert(d@.subrange(pos as int, pos + pat@.len() as int) =~= pat@);
    }
    true
}

/// The offset, relative to `pos`, of the first NUL byte at or after `pos`.
pub open spec fn spec_find_nul(d: Seq<u8>, pos: int) -> Option<int>
    decreases d.len() - pos,
{
    if pos < 0 || pos >= d.len() {
        None
    } else if d[pos] == 0 {
        Some(0)
    } else {
        match spec_find_nul(d, pos + 1) {
            Some(k) => Some(k + 1),
            None => None,
        }
    }
}

pub fn find_nul(d: &[u8], pos: usize) -> (r: Option<usize>)
    ensures
        match r {
            Some(k) => spec_find_nul(d@, pos as int) == Some(k as int) && pos + k < d@.len(),
            None => spec_find_nul(d@, pos as int) is None,
        },
    decreases d@.len() - pos,
{
    if pos >= d.len() {
        None
    } else if d[pos] == 0 {
        Some(0)
    } else {
        match find_nul(d, pos + 1) {
            Some(k) => Some(k + 1),
            None => None,
        }
    }
}

/// A copy of a byte vector.
pub fn vec_clone(v: &Vec<u8>) -> (r: Vec<u8>)
    ensures
        r@ == v@,
{
    let r = sub_vec(v.as_slice(), 0, v.len());
    proof {
        assert(r@ =~= v@);
    }
    r
}

/// The ghost image of a list of byte vectors.
pub open spec fn vecs_view(s: Seq<Vec<u8>>) -> Seq<Seq<u8>> {
    s.map(|i: int, v: Vec<u8>| v@)
}

/// Copy `d[start..end]` into a fresh vector.
pub fn sub_vec(d: &[u8], start: usize, end: usize) -> (r: Vec<u8>)
    requires
        start <= end <= d@.len(),
    ensures
        r@ == d@.subrange(start as int, end as int),
{
    let mut out: Vec<u8> = Vec::new();
    let mut i: usize = start;
    while i < end
        invariant
            start <= i <= end <= d@.len(),
            out@ == d@.subrange(start as int, i as int),
        decreases end - i,
    {
        out.push(d[i]);
        proof {
            assert(d@.subrange(start as int, i + 1) =~= d@.subrange(start as int, i as int)
                + seq![d@[i as int]]);
        }
        i = i + 1;
    }
    out
}

} // verus!
