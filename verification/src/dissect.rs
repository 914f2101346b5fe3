//! Container dissectors: locate the JUMBF payload inside PNG `caBX`
//! chunks or inside a BMFF `uuid` box carrying the C2PA UUID. Any
//! structural defect yields no payload, and the pipeline proceeds as
//! unsigned.

use vstd::prelude::*;
use crate::bytes::{spec_u16_be, spec_u32_be, spec_u64_be, spec_find_nul, u16_be, u32_be, u64_be,
    find_nul, sub_vec, range_eq};

verus! {

/// PNG chunk type `caBX`, packed big-endian.
pub const CABX_TYPE: u32 = 0x63614258;

/// BMFF box type `uuid`, packed big-endian.
pub const UUID_TYPE: u32 = 0x75756964;

/// BMFF box type `ftyp`, packed big-endian.
pub const FTYP_TYPE: u32 = 0x66747970;

/// Whether the input carries the 8-byte PNG signature.
pub open spec fn spec_is_png(d: Seq<u8>) -> bool {
    d.len() >= 8 && spec_u32_be(d, 0) == 0x89504E47 && spec_u32_be(d, 4) == 0x0D0A1A0A
}

/// Whether the input starts with the JPEG start-of-image marker bytes.
pub open spec fn spec_is_jpeg(d: Seq<u8>) -> bool {
    d.len() >= 3 && d[0] == 0xFF && d[1] == 0xD8 && d[2] == 0xFF
}

/// Whether the input is a BMFF container: bytes [4..8] equal `ftyp`.
pub open spec fn spec_is_bmff(d: Seq<u8>) -> bool {
    d.len() >= 8 && spec_u32_be(d, 4) == FTYP_TYPE
}

pub fn is_png(d: &[u8]) -> (r: bool)
    ensures
        r == spec_is_png(d@),
{
    d.len() >= 8 && u32_be(d, 0) == 0x89504E47 && u32_be(d, 4) == 0x0D0A1A0A
}

pub fn is_jpeg(d: &[u8]) -> (r: bool)
    ensures
        r == spec_is_jpeg(d@),
{
    d.len() >= 3 && d[0] == 0xFF && d[1] == 0xD8 && d[2] == 0xFF
}

/// Whether a file is BMFF-based (MP4, MOV, HEIF) by the `ftyp` box.
pub fn is_bmff(d: &[u8]) -> (r: bool)
    ensures
        r == spec_is_bmff(d@),
{
    d.len() >= 8 && u32_be(d, 4) == FTYP_TYPE
}

/// The concatenated data of every `caBX` chunk from `pos` onward. A
/// chunk is `length(4 BE) | type(4) | data(length) | CRC(4)`; the walk
/// stops where a chunk would exceed the input.
pub open spec fn spec_png_collect(d: Seq<u8>, pos: int) -> Seq<u8>
    decreases d.len() - pos,
{
    if pos < 0 || pos + 12 > d.len() {
        Seq::empty()
    } else {
        let length = spec_u32_be(d, pos);
        let data_end = pos + 8 + length;
        if data_end + 4 > d.len() {
            Seq::empty()
        } else if spec_u32_be(d, pos + 4) == CABX_TYPE {
            d.subrange(pos + 8, data_end) + spec_png_collect(d, data_end + 4)
        } else {
            spec_png_collect(d, data_end + 4)
        }
    }
}

fn png_collect(d: &[u8], pos: usize) -> (r: Vec<u8>)
    ensures
        r@ == spec_png_collect(d@, pos as int),
    decreases d@.len() - pos,
{
    let n = d.len();
    if pos > n || n - pos < 12 {
        return Vec::new();
    }
    let length = u32_be(d, pos) as usize;
    if length > n - pos - 12 {
        return Vec::new();
    }
    let data_end = pos + 8 + length;
    let mut rest = png_collect(d, data_end + 4);
    if u32_be(d, pos + 4) == CABX_TYPE {
        let mut out = sub_vec(d, pos + 8, data_end);
        out.append(&mut rest);
        out
    } else {
        rest
    }
}

/// The JUMBF payload of a PNG: the concatenation of all `caBX` chunk
/// data, or nothing when the signature is absent or no such chunk holds
/// any data.
pub open spec fn spec_extract_c2pa_from_png(d: Seq<u8>) -> Option<Seq<u8>> {
    if !spec_is_png(d) {
        None
    } else {
        let j = spec_png_collect(d, 8);
        if j.len() == 0 {
            None
        } else {
            Some(j)
        }
    }
}

/// Extract C2PA JUMBF data from PNG `caBX` chunk(s).
pub fn extract_c2pa_from_png(data: &[u8]) -> (r: Option<Vec<u8>>)
    ensures
        match r {
            Some(v) => spec_extract_c2pa_from_png(data@) == Some(v@),
            None => spec_extract_c2pa_from_png(data@) is None,
        },
{
    if !is_png(data) {
        return None;
    }
    let j = png_collect(data, 8);
    if j.len() == 0 {
        None
    } else {
        Some(j)
    }
}

/// The C2PA box UUID `d8fec3d6-1b0e-483c-9297-5828877ec481` as bytes.
pub open spec fn spec_c2pa_uuid() -> Seq<u8> {
    seq![0xd8u8, 0xfe, 0xc3, 0xd6, 0x1b, 0x0e, 0x48, 0x3c, 0x92, 0x97, 0x58, 0x28, 0x87, 0x7e,
        0xc4, 0x81]
}

/// The 16 C2PA UUID bytes, as a vector for range comparison.
pub fn c2pa_uuid() -> (r: Vec<u8>)
    ensures
        r@ == spec_c2pa_uuid(),
{
    let mut v: Vec<u8> = Vec::new();
    v.push(0xd8);
    v.push(0xfe);
    v.push(0xc3);
    v.push(0xd6);
    v.push(0x1b);
    v.push(0x0e);
    v.push(0x48);
    v.push(0x3c);
    v.push(0x92);
    v.push(0x97);
    v.push(0x58);
    v.push(0x28);
    v.push(0x87);
    v.push(0x7e);
    v.push(0xc4);
    v.push(0x81);
    proof {
        assert(v@ =~= spec_c2pa_uuid());
    }
    v
}

/// The ASCII bytes of the box purpose `manifest`.
pub open spec fn spec_purpose_manifest() -> Seq<u8> {
    seq![0x6du8, 0x61, 0x6e, 0x69, 0x66, 0x65, 0x73, 0x74]
}

/// The ASCII bytes of the box purpose `original`.
pub open spec fn spec_purpose_original() -> Seq<u8> {
    seq![0x6fu8, 0x72, 0x69, 0x67, 0x69, 0x6e, 0x61, 0x6c]
}

fn purpose_manifest() -> (r: Vec<u8>)
    ensures
        r@ == spec_purpose_manifest(),
{
    let mut v: Vec<u8> = Vec::new();
    v.push(0x6d);
    v.push(0x61);
    v.push(0x6e);
    v.push(0x69);
    v.push(0x66);
    v.push(0x65);
    v.push(0x73);
    v.push(0x74);
    proof {
        assert(v@ =~= spec_purpose_manifest());
    }
    v
}

fn purpose_original() -> (r: Vec<u8>)
    ensures
        r@ == spec_purpose_original(),
{
    let mut v: Vec<u8> = Vec::new();
    v.push(0x6f);
    v.push(0x72);
    v.push(0x69);
    v.push(0x67);
    v.push(0x69);
    v.push(0x6e);
    v.push(0x61);
    v.push(0x6c);
    proof {
        assert(v@ =~= spec_purpose_original());
    }
    v
}

/// The offset of the first NUL at or after `pos` but before `end`.
pub open spec fn spec_find_nul_before(d: Seq<u8>, pos: int, end: int) -> Option<int> {
    match spec_find_nul(d, pos) {
        Some(k) => if pos + k < end {
            Some(k)
        } else {
            None
        },
        None => None,
    }
}

/// The JUMBF payload of the first matching top-level `uuid` box from
/// `pos` onward: C2PA UUID, then a FullBox header, a NUL-terminated
/// purpose equal to `manifest` or `original` (other purposes skip the
/// box), then an 8-byte auxiliary offset; the remainder is the payload.
pub open spec fn spec_bmff_scan(d: Seq<u8>, pos: int) -> Option<Seq<u8>>
    decreases d.len() - pos,
{
    if pos < 0 || pos + 8 > d.len() {
        None
    } else {
        let size32 = spec_u32_be(d, pos);
        if size32 == 1 && pos + 16 > d.len() {
            None
        } else {
            let hdr: int = if size32 == 1 {
                16
            } else {
                8
            };
            let bsize: int = if size32 == 1 {
                spec_u64_be(d, pos + 8)
            } else if size32 == 0 {
                d.len() - pos
            } else {
                size32
            };
            if bsize < hdr || pos + bsize > d.len() {
                None
            } else {
                let box_end = pos + bsize;
                if spec_u32_be(d, pos + 4) == UUID_TYPE && bsize - hdr >= 16 && d.subrange(
                    pos + hdr,
                    pos + hdr + 16,
                ) == spec_c2pa_uuid() {
                    let inner0 = pos + hdr + 16;
                    if box_end - inner0 < 4 {
                        spec_bmff_scan(d, box_end)
                    } else {
                        let cur = inner0 + 4;
                        match spec_find_nul_before(d, cur, box_end) {
                            None => None,
                            Some(k) => {
                                let after = cur + k + 1 + 8;
                                if d.subrange(cur, cur + k) == spec_purpose_manifest()
                                    || d.subrange(cur, cur + k) == spec_purpose_original() {
                                    if after > box_end {
                                        spec_bmff_scan(d, box_end)
                                    } else {
                                        Some(d.subrange(after, box_end))
                                    }
                                } else {
                                    spec_bmff_scan(d, box_end)
                                }
                            },
                        }
                    }
                } else {
                    spec_bmff_scan(d, box_end)
                }
            }
        }
    }
}

#[verifier::rlimit(100)]
fn bmff_scan(d: &[u8], pos: usize) -> (r: Option<Vec<u8>>)
    ensures
        match r {
            Some(v) => spec_bmff_scan(d@, pos as int) == Some(v@),
            None => spec_bmff_scan(d@, pos as int) is None,
        },
    decreases d@.len() - pos,
{
    let n = d.len();
    if pos > n || n - pos < 8 {
        return None;
    }
    let size32 = u32_be(d, pos);
    if size32 == 1 && n - pos < 16 {
        return None;
    }
    let hdr: usize = if size32 == 1 {
        16
    } else {
        8
    };
    let bsize: u64 = if size32 == 1 {
        u64_be(d, pos + 8)
    } else if size32 == 0 {
        (n - pos) as u64
    } else {
        size32 as u64
    };
    if bsize < hdr as u64 || bsize > (n - pos) as u64 {
        return None;
    }
    let bsize: usize = bsize as usize;
    let box_end = pos + bsize;
    let uuid = c2pa_uuid();
    if u32_be(d, pos + 4) == UUID_TYPE && bsize - hdr >= 16 && range_eq(d, pos + hdr,
        uuid.as_slice()) {
        let inner0 = pos + hdr + 16;
        if box_end - inner0 < 4 {
            bmff_scan(d, box_end)
        } else {
            let cur = inner0 + 4;
            let nul = match find_nul(d, cur) {
                Some(k) => if cur + k < box_end {
                    Some(k)
                } else {
                    None
                },
                None => None,
            };
            match nul {
                None => None,
                Some(k) => {
                    let man = purpose_manifest();
                    let orig = purpose_original();
                    let is_purpose = (k == 8 && range_eq(d, cur, man.as_slice())) || (k == 8
                        && range_eq(d, cur, orig.as_slice()));
                    proof {
                        if k != 8 {
                            assert(d@.subrange(cur as int, cur + k) != spec_purpose_manifest()
                                && d@.subrange(cur as int, cur + k) != spec_purpose_original())
                                by {
                                assert(d@.subrange(cur as int, cur + k).len() == k);
                            };
                        }
                    }
                    if is_purpose {
                        if box_end - (cur + k) < 9 {
                            bmff_scan(d, box_end)
                        } else {
                            Some(sub_vec(d, cur + k + 9, box_end))
                        }
                    } else {
                        bmff_scan(d, box_end)
                    }
                },
            }
        }
    } else {
        bmff_scan(d, box_end)
    }
}

/// The JUMBF payload of a BMFF container, from the first top-level
/// C2PA `uuid` box.
pub open spec fn spec_extract_c2pa_from_bmff(d: Seq<u8>) -> Option<Seq<u8>> {
    spec_bmff_scan(d, 0)
}

/// Extract C2PA JUMBF data from a BMFF container (MP4, MOV, HEIF).
pub fn extract_c2pa_from_bmff(data: &[u8]) -> (r: Option<Vec<u8>>)
    ensures
        match r {
            Some(v) => spec_extract_c2pa_from_bmff(data@) == Some(v@),
            None => spec_extract_c2pa_from_bmff(data@) is None,
        },
{
    bmff_scan(data, 0)
}

} // verus!
