//! Box-tree inspection helpers: spaced hex and UUID formatting,
//! NUL-terminated string reading, and the direct walkers that locate
//! the manifest store, its manifests, and a claim's CBOR box.

use vstd::prelude::*;
use crate::hexes::{spec_hex, spec_hex_digit, hex_lower, lemma_nibbles};
use crate::bytes::{spec_u32_be, spec_find_nul, u32_be, find_nul, sub_vec};
use crate::utf8::{spec_lossy, utf8_lossy};
use crate::jumbf::{spec_box_at, JUMB_TYPE, JUMD_TYPE, CBOR_TYPE};
use crate::bytes::vecs_view;

verus! {

/// Lowercase hex of the bytes, two digits each, joined by spaces.
pub open spec fn spec_hex_spaced(s: Seq<u8>) -> Seq<u8>
    decreases s.len(),
{
    if s.len() == 0 {
        Seq::empty()
    } else if s.len() == 1 {
        spec_hex(s)
    } else {
        spec_hex_spaced(s.drop_last()) + seq![0x20u8] + seq![
            spec_hex_digit((s.last() >> 4) as u8),
            spec_hex_digit((s.last() & 0x0f) as u8),
        ]
    }
}

/// Render bytes as space-separated lowercase hex pairs.
pub fn hex_string(data: &[u8]) -> (r: Vec<u8>)
    ensures
        r@ == spec_hex_spaced(data@),
{
    let n = data.len();
    let mut out: Vec<u8> = Vec::new();
    let mut i: usize = 0;
    while i < n
        invariant
            i <= n == data@.len(),
            out@ == spec_hex_spaced(data@.take(i as int)),
        decreases n - i,
    {
        let b = data[i];
        proof {
            lemma_nibbles(b);
            assert(data@.take(i + 1).drop_last() =~= data@.take(i as int));
            assert(data@.take(i + 1).last() == data@[i as int]);
            if i == 0 {
                reveal_with_fuel(spec_hex, 3);
                assert(data@.take(1).skip(1) =~= Seq::<u8>::empty());
            }
        }
        if i > 0 {
            out.push(0x20);
        }
        out.push(crate::hexes::hex_digit(b >> 4));
        out.push(crate::hexes::hex_digit(b & 0x0f));
        proof {
            assert(out@ =~= spec_hex_spaced(data@.take(i + 1)));
        }
        i = i + 1;
    }
    proof {
        assert(data@.take(n as int) =~= data@);
    }
    out
}

/// The dashed UUID form of 16 bytes: the hex of byte groups 4-2-2-2-6
/// joined by dashes; shorter input falls back to spaced hex.
pub open spec fn spec_format_uuid(d: Seq<u8>) -> Seq<u8> {
    if d.len() < 16 {
        spec_hex_spaced(d)
    } else {
        spec_hex(d.subrange(0, 4)) + seq![0x2du8] + spec_hex(d.subrange(4, 6)) + seq![0x2du8]
            + spec_hex(d.subrange(6, 8)) + seq![0x2du8] + spec_hex(d.subrange(8, 10)) + seq![
            0x2du8,
        ] + spec_hex(d.subrange(10, 16))
    }
}

/// Render the first 16 bytes as a dashed UUID.
pub fn format_uuid(data: &[u8]) -> (r: Vec<u8>)
    ensures
        r@ == spec_format_uuid(data@),
{
    if data.len() < 16 {
        return hex_string(data);
    }
    let mut out = hex_lower(sub_vec(data, 0, 4).as_slice());
    out.push(0x2d);
    let mut g2 = hex_lower(sub_vec(data, 4, 6).as_slice());
    out.append(&mut g2);
    out.push(0x2d);
    let mut g3 = hex_lower(sub_vec(data, 6, 8).as_slice());
    out.append(&mut g3);
    out.push(0x2d);
    let mut g4 = hex_lower(sub_vec(data, 8, 10).as_slice());
    out.append(&mut g4);
    out.push(0x2d);
    let mut g5 = hex_lower(sub_vec(data, 10, 16).as_slice());
    out.append(&mut g5);
    proof {
        assert(out@ =~= spec_format_uuid(data@));
    }
    out
}

/// The lossy text before the first NUL, and the bytes consumed
/// including the terminator; without a NUL, the whole input.
pub open spec fn spec_read_null_terminated(d: Seq<u8>) -> (Seq<u8>, int) {
    match spec_find_nul(d, 0) {
        Some(k) => (spec_lossy(d.subrange(0, k)), k + 1),
        None => (spec_lossy(d), d.len() as int),
    }
}

/// Read a NUL-terminated string with lossy decoding, returning the
/// text and the number of bytes consumed.
pub fn read_null_terminated(data: &[u8]) -> (r: (Vec<u8>, usize))
    ensures
        r.0@ == spec_read_null_terminated(data@).0,
        r.1 as int == spec_read_null_terminated(data@).1,
{
    match find_nul(data, 0) {
        Some(k) => {
            let s = sub_vec(data, 0, k);
            (utf8_lossy(s.as_slice()), k + 1)
        },
        None => {
            let s = sub_vec(data, 0, data.len());
            proof {
                assert(s@ =~= data@);
            }
            (utf8_lossy(s.as_slice()), data.len())
        },
    }
}

/// The content of the top-level manifest-store box, where the input
/// starts with a well-formed `jumb` box.
pub open spec fn spec_skip_to_store_content(d: Seq<u8>) -> Option<Seq<u8>> {
    match spec_box_at(d, 0) {
        None => None,
        Some((hdr, bsize)) => if spec_u32_be(d, 4) == JUMB_TYPE {
            Some(d.subrange(hdr, bsize))
        } else {
            None
        },
    }
}

/// Skip to the content of the top-level manifest-store box.
pub fn skip_to_store_content(data: &[u8]) -> (r: Option<Vec<u8>>)
    ensures
        match r {
            Some(v) => spec_skip_to_store_content(data@) == Some(v@),
            None => spec_skip_to_store_content(data@) is None,
        },
{
    match crate::jumbf::box_at(data, 0) {
        None => None,
        Some((hdr, bsize)) => if u32_be(data, 4) == JUMB_TYPE {
            Some(sub_vec(data, hdr, bsize))
        } else {
            None
        },
    }
}

/// The contents of the `jumb` boxes from `pos` onward.
pub open spec fn spec_find_manifests(d: Seq<u8>, pos: int) -> Seq<Seq<u8>>
    decreases d.len() - pos,
{
    match spec_box_at(d, pos) {
        None => Seq::empty(),
        Some((hdr, bsize)) => {
            let rest = spec_find_manifests(d, pos + bsize);
            if spec_u32_be(d, pos + 4) == JUMB_TYPE {
                seq![d.subrange(pos + hdr, pos + bsize)] + rest
            } else {
                rest
            }
        },
    }
}

fn find_manifests_from(d: &[u8], pos: usize) -> (r: Vec<Vec<u8>>)
    ensures
        vecs_view(r@) == spec_find_manifests(d@, pos as int),
    decreases d@.len() - pos,
{
    match crate::jumbf::box_at(d, pos) {
        None => {
            let r: Vec<Vec<u8>> = Vec::new();
            proof {
                assert(vecs_view(r@) =~= spec_find_manifests(d@, pos as int));
            }
            r
        },
        Some((hdr, bsize)) => {
            let n = d.len();
            proof {
                assert(pos + bsize <= n);
            }
            let mut rest = find_manifests_from(d, pos + bsize);
            if u32_be(d, pos + 4) == JUMB_TYPE {
                let content = sub_vec(d, pos + hdr, pos + bsize);
                let mut out: Vec<Vec<u8>> = Vec::new();
                out.push(content);
                out.append(&mut rest);
                proof {
                    assert(vecs_view(out@) =~= spec_find_manifests(d@, pos as int));
                }
                out
            } else {
                rest
            }
        },
    }
}

/// Find all manifests: each is the content of a `jumb` superbox.
pub fn find_manifests(data: &[u8]) -> (r: Vec<Vec<u8>>)
    ensures
        vecs_view(r@) == spec_find_manifests(data@, 0),
{
    find_manifests_from(data, 0)
}

/// The UUID content bytes of a claim description box.
pub open spec fn spec_claim_uuid() -> Seq<u8> {
    seq![0x63u8, 0x32, 0x63, 0x6c, 0x00, 0x11, 0x00, 0x10, 0x80, 0x00, 0x00, 0xaa, 0x00, 0x38,
        0x9b, 0x71]
}

fn claim_uuid() -> (r: Vec<u8>)
    ensures
        r@ == spec_claim_uuid(),
{
    let mut v: Vec<u8> = Vec::new();
    v.push(0x63);
    v.push(0x32);
    v.push(0x63);
    v.push(0x6c);
    v.push(0x00);
    v.push(0x11);
    v.push(0x00);
    v.push(0x10);
    v.push(0x80);
    v.push(0x00);
    v.push(0x00);
    v.push(0xaa);
    v.push(0x00);
    v.push(0x38);
    v.push(0x9b);
    v.push(0x71);
    proof {
        assert(v@ =~= spec_claim_uuid());
    }
    v
}

/// Whether a `jumb` content starts with a claim description box: a
/// `jumd` of at least 24 bytes whose UUID is the claim UUID.
pub open spec fn spec_is_claim_box(d: Seq<u8>) -> bool {
    &&& d.len() >= 24
    &&& spec_u32_be(d, 4) == JUMD_TYPE
    &&& spec_u32_be(d, 0) >= 24
    &&& d.subrange(8, 24) == spec_claim_uuid()
}

/// Check whether a `jumb` content is a claim box, by its description
/// box's UUID.
pub fn is_claim_box(jumb_content: &[u8]) -> (r: bool)
    ensures
        r == spec_is_claim_box(jumb_content@),
{
    if jumb_content.len() < 24 {
        return false;
    }
    if u32_be(jumb_content, 4) != JUMD_TYPE {
        return false;
    }
    if u32_be(jumb_content, 0) < 24 {
        return false;
    }
    let uuid = claim_uuid();
    let r = crate::bytes::range_eq(jumb_content, 8, uuid.as_slice());
    proof {
        if r {
            assert(jumb_content@.subrange(8, 24) == spec_claim_uuid());
        } else {
            assert(jumb_content@.subrange(8, 24) != spec_claim_uuid());
        }
    }
    r
}

/// The content of the first `cbor` box from `pos` onward.
pub open spec fn spec_find_cbor_box(d: Seq<u8>, pos: int) -> Option<Seq<u8>>
    decreases d.len() - pos,
{
    match spec_box_at(d, pos) {
        None => None,
        Some((hdr, bsize)) => if spec_u32_be(d, pos + 4) == CBOR_TYPE {
            Some(d.subrange(pos + hdr, pos + bsize))
        } else {
            spec_find_cbor_box(d, pos + bsize)
        },
    }
}

fn find_cbor_box_from(d: &[u8], pos: usize) -> (r: Option<Vec<u8>>)
    ensures
        match r {
            Some(v) => spec_find_cbor_box(d@, pos as int) == Some(v@),
            None => spec_find_cbor_box(d@, pos as int) is None,
        },
    decreases d@.len() - pos,
{
    match crate::jumbf::box_at(d, pos) {
        None => None,
        Some((hdr, bsize)) => {
            let n = d.len();
            proof {
                assert(pos + bsize <= n);
            }
            if u32_be(d, pos + 4) == CBOR_TYPE {
                Some(sub_vec(d, pos + hdr, pos + bsize))
            } else {
                find_cbor_box_from(d, pos + bsize)
            }
        },
    }
}

/// Find the `cbor` box inside a claim superbox.
pub fn find_cbor_box(jumb_content: &[u8]) -> (r: Option<Vec<u8>>)
    ensures
        match r {
            Some(v) => spec_find_cbor_box(jumb_content@, 0) == Some(v@),
            None => spec_find_cbor_box(jumb_content@, 0) is None,
        },
{
    find_cbor_box_from(jumb_content, 0)
}

/// The claim CBOR of a manifest: the `cbor` content of the first
/// child `jumb` whose description box carries the claim UUID.
pub open spec fn spec_find_claim_cbor(d: Seq<u8>, pos: int) -> Option<Seq<u8>>
    decreases d.len() - pos,
{
    match spec_box_at(d, pos) {
        None => None,
        Some((hdr, bsize)) => {
            let content = d.subrange(pos + hdr, pos + bsize);
            if spec_u32_be(d, pos + 4) == JUMB_TYPE && spec_is_claim_box(content) {
                spec_find_cbor_box(content, 0)
            } else {
                spec_find_claim_cbor(d, pos + bsize)
            }
        },
    }
}

/// Find the claim's CBOR payload among a manifest's children.
pub fn find_claim_cbor(manifest_data: &[u8]) -> (r: Option<Vec<u8>>)
    ensures
        match r {
            Some(v) => spec_find_claim_cbor(manifest_data@, 0) == Some(v@),
            None => spec_find_claim_cbor(manifest_data@, 0) is None,
        },
{
    find_claim_cbor_from(manifest_data, 0)
}

fn find_claim_cbor_from(d: &[u8], pos: usize) -> (r: Option<Vec<u8>>)
    ensures
        match r {
            Some(v) => spec_find_claim_cbor(d@, pos as int) == Some(v@),
            None => spec_find_claim_cbor(d@, pos as int) is None,
        },
    decreases d@.len() - pos,
{
    match crate::jumbf::box_at(d, pos) {
        None => None,
        Some((hdr, bsize)) => {
            let n = d.len();
            proof {
                assert(pos + bsize <= n);
            }
            let content = sub_vec(d, pos + hdr, pos + bsize);
            if u32_be(d, pos + 4) == JUMB_TYPE && is_claim_box(content.as_slice()) {
                find_cbor_box(content.as_slice())
            } else {
                find_claim_cbor_from(d, pos + bsize)
            }
        },
    }
}

} // verus!
