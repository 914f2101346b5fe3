//! Lowercase hex encoding of byte sequences, and the small byte-level
//! helpers shared by the box dumpers: spaced hex, UUID formatting, and
//! NUL-terminated string reading.

use vstd::prelude::*;

verus! {

/// The lowercase hex digit (as an ASCII byte) for a nibble.
pub open spec fn spec_hex_digit(n: u8) -> u8 {
    if n < 10 {
        (0x30 + n) as u8
    } else {
        (0x61 + (n - 10)) as u8
    }
}

/// Lowercase hex encoding: two digits per byte, in order.
pub open spec fn spec_hex(s: Seq<u8>) -> Seq<u8>
    decreases s.len(),
{
    if s.len() == 0 {
        Seq::empty()
    } else {
        seq![
            spec_hex_digit((s[0] >> 4) as u8),
            spec_hex_digit((s[0] & 0x0f) as u8),
        ] + spec_hex(s.skip(1))
    }
}

pub proof fn lemma_spec_hex_len(s: Seq<u8>)
    ensures
        spec_hex(s).len() == 2 * s.len(),
    decreases s.len(),
{
    if s.len() > 0 {
        lemma_spec_hex_len(s.skip(1));
    }
}

pub proof fn lemma_nibbles(b: u8)
    ensures
        (b >> 4) < 16,
        (b & 0x0f) < 16,
{
    assert((b >> 4) < 16 && (b & 0x0f) < 16) by (bit_vector);
}

pub fn hex_digit(n: u8) -> (r: u8)
    requires
        n < 16,
    ensures
        r == spec_hex_digit(n),
{
    if n < 10 {
        0x30 + n
    } else {
        0x61 + (n - 10)
    }
}

/// Lowercase hex encoding of a byte slice, two digits per byte.
pub fn hex_lower(data: &[u8]) -> (r: Vec<u8>)
    ensures
        r@ == spec_hex(data@),
{
    let mut out: Vec<u8> = Vec::new();
    let mut i: usize = 0;
    while i < data.len()
        invariant
            i <= data.len(),
            out@ == spec_hex(data@.take(i as int)),
        decreases data.len() - i,
    {
        let b = data[i];
        proof {
            lemma_hex_push(data@, i as int);
            lemma_nibbles(b);
        }
        out.push(hex_digit(b >> 4));
        out.push(hex_digit(b & 0x0f));
        i = i + 1;
    }
    proof {
        assert(data@.take(data@.len() as int) =~= data@);
    }
    out
}

proof fn lemma_hex_push(s: Seq<u8>, i: int)
    requires
        0 <= i < s.len(),
    ensures
        spec_hex(s.take(i + 1)) == spec_hex(s.take(i)) + seq![
            spec_hex_digit((s[i] >> 4) as u8),
            spec_hex_digit((s[i] & 0x0f) as u8),
        ],
    decreases i,
{
    let a = s.take(i + 1);
    if i == 0 {
        reveal_with_fuel(spec_hex, 3);
        assert(a.skip(1) =~= Seq::<u8>::empty());
        assert(spec_hex(s.take(0)) =~= Seq::<u8>::empty());
        assert(spec_hex(a) =~= seq![
            spec_hex_digit((s[0] >> 4) as u8),
            spec_hex_digit((s[0] & 0x0f) as u8),
        ]);
    } else {
        lemma_hex_push(s.skip(1), i - 1);
        assert(a.skip(1) =~= s.skip(1).take(i));
        assert(s.take(i).skip(1) =~= s.skip(1).take(i - 1));
        assert(spec_hex(a) == seq![
            spec_hex_digit((a[0] >> 4) as u8),
            spec_hex_digit((a[0] & 0x0f) as u8),
        ] + spec_hex(s.skip(1).take(i)));
        assert(spec_hex(s.take(i)) == seq![
            spec_hex_digit((a[0] >> 4) as u8),
            spec_hex_digit((a[0] & 0x0f) as u8),
        ] + spec_hex(s.skip(1).take(i - 1)));
        assert(spec_hex(s.take(i + 1)) =~= spec_hex(s.take(i)) + seq![
            spec_hex_digit((s[i] >> 4) as u8),
            spec_hex_digit((s[i] & 0x0f) as u8),
        ]);
    }
}

} // verus!
