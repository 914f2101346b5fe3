//! JPEG APP11 dissector (JUMBF in JPEG): scan marker segments up to
//! start-of-scan, collect JUMBF fragments, group them by box instance
//! number `En`, order the group with the lowest `En` by packet sequence
//! number `Z`, and concatenate the payloads.

use vstd::prelude::*;
use crate::bytes::{spec_u16_be, spec_u32_be, u16_be, u32_be, sub_vec};
use crate::dissect::{spec_is_jpeg, is_jpeg};

verus! {

/// One APP11 JUMBF fragment: box instance number, packet sequence
/// number, and the payload bytes after the 10-byte fragment header.
pub struct JpegFragment {
    pub en: u16,
    pub z: u32,
    pub payload: Vec<u8>,
}

/// The ghost image of a fragment.
pub ghost struct GFrag {
    pub en: int,
    pub z: int,
    pub payload: Seq<u8>,
}

impl JpegFragment {
    pub open spec fn view(&self) -> GFrag {
        GFrag { en: self.en as int, z: self.z as int, payload: self.payload@ }
    }
}

/// The ghost image of a fragment list.
pub open spec fn frags_view(s: Seq<JpegFragment>) -> Seq<GFrag> {
    s.map(|i: int, f: JpegFragment| f.view())
}

/// The fragments of every APP11 segment whose payload begins with the
/// common identifier `JP`, from `pos` onward. Padding and stuffing
/// bytes are skipped, standalone markers carry no length, and
/// start-of-scan ends the walk; a malformed length aborts it.
pub open spec fn spec_jpeg_scan(d: Seq<u8>, pos: int) -> Seq<GFrag>
    decreases d.len() - pos,
{
    if pos < 0 || pos + 2 > d.len() {
        Seq::empty()
    } else if d[pos] != 0xFF {
        spec_jpeg_scan(d, pos + 1)
    } else {
        let marker = d[pos + 1];
        let p2 = pos + 2;
        if marker == 0xFF || marker == 0x00 {
            spec_jpeg_scan(d, p2)
        } else if marker == 0xDA {
            Seq::empty()
        } else if marker == 0xD8 || marker == 0xD9 || (0xD0 <= marker && marker <= 0xD7) {
            spec_jpeg_scan(d, p2)
        } else if p2 + 2 > d.len() {
            Seq::empty()
        } else {
            let seg_len = spec_u16_be(d, p2);
            if seg_len < 2 || p2 + seg_len > d.len() {
                Seq::empty()
            } else {
                let frag: Seq<GFrag> = if marker == 0xEB && seg_len >= 10 && spec_u16_be(d, p2 + 2)
                    == 0x4A50 {
                    seq![
                        GFrag {
                            en: spec_u16_be(d, p2 + 4),
                            z: spec_u32_be(d, p2 + 6),
                            payload: d.subrange(p2 + 10, p2 + seg_len),
                        },
                    ]
                } else {
                    Seq::empty()
                };
                frag + spec_jpeg_scan(d, p2 + seg_len)
            }
        }
    }
}

fn jpeg_scan(d: &[u8], pos: usize) -> (r: Vec<JpegFragment>)
    ensures
        frags_view(r@) == spec_jpeg_scan(d@, pos as int),
    decreases d@.len() - pos,
{
    let n = d.len();
    if pos > n || n - pos < 2 {
        let r: Vec<JpegFragment> = Vec::new();
        proof {
            assert(frags_view(r@) =~= spec_jpeg_scan(d@, pos as int));
        }
        return r;
    }
    if d[pos] != 0xFF {
        return jpeg_scan(d, pos + 1);
    }
    let marker = d[pos + 1];
    let p2 = pos + 2;
    if marker == 0xFF || marker == 0x00 {
        return jpeg_scan(d, p2);
    }
    if marker == 0xDA {
        let r: Vec<JpegFragment> = Vec::new();
        proof {
            assert(frags_view(r@) =~= spec_jpeg_scan(d@, pos as int));
        }
        return r;
    }
    if marker == 0xD8 || marker == 0xD9 || (0xD0 <= marker && marker <= 0xD7) {
        return jpeg_scan(d, p2);
    }
    if n - p2 < 2 {
        let r: Vec<JpegFragment> = Vec::new();
        proof {
            assert(frags_view(r@) =~= spec_jpeg_scan(d@, pos as int));
        }
        return r;
    }
    let seg_len = u16_be(d, p2) as usize;
    if seg_len < 2 || seg_len > n - p2 {
        let r: Vec<JpegFragment> = Vec::new();
        proof {
            assert(frags_view(r@) =~= spec_jpeg_scan(d@, pos as int));
        }
        return r;
    }
    let mut rest = jpeg_scan(d, p2 + seg_len);
    if marker == 0xEB && seg_len >= 10 && u16_be(d, p2 + 2) == 0x4A50 {
        let frag = JpegFragment {
            en: u16_be(d, p2 + 4),
            z: u32_be(d, p2 + 6),
            payload: sub_vec(d, p2 + 10, p2 + seg_len),
        };
        let mut out: Vec<JpegFragment> = Vec::new();
        out.push(frag);
        out.append(&mut rest);
        proof {
            assert(frags_view(out@) =~= spec_jpeg_scan(d@, pos as int));
        }
        out
    } else {
        proof {
            assert(frags_view(rest@) =~= spec_jpeg_scan(d@, pos as int));
        }
        rest
    }
}

/// The smallest box instance number in the list; one past the largest
/// `u16` when the list is empty.
pub open spec fn spec_min_en(s: Seq<GFrag>) -> int
    decreases s.len(),
{
    if s.len() == 0 {
        0x10000
    } else {
        let m = spec_min_en(s.drop_last());
        if s.last().en < m {
            s.last().en
        } else {
            m
        }
    }
}

/// The fragments whose instance number equals `m`, in original order.
pub open spec fn spec_filter_en(s: Seq<GFrag>, m: int) -> Seq<GFrag>
    decreases s.len(),
{
    if s.len() == 0 {
        Seq::empty()
    } else {
        spec_filter_en(s.drop_last(), m) + if s.last().en == m {
            seq![s.last()]
        } else {
            Seq::empty()
        }
    }
}

/// Insertion of `x` after every element whose `Z` is at most `x.z`,
/// which keeps insertion order among equal keys.
pub open spec fn spec_insert_z(x: GFrag, s: Seq<GFrag>) -> Seq<GFrag>
    decreases s.len(),
{
    if s.len() == 0 {
        seq![x]
    } else if s[0].z <= x.z {
        seq![s[0]] + spec_insert_z(x, s.skip(1))
    } else {
        seq![x] + s
    }
}

/// Stable insertion sort of the fragments by `Z` ascending.
pub open spec fn spec_sort_z(s: Seq<GFrag>) -> Seq<GFrag>
    decreases s.len(),
{
    if s.len() == 0 {
        Seq::empty()
    } else {
        spec_insert_z(s.last(), spec_sort_z(s.drop_last()))
    }
}

/// The concatenation of the fragment payloads, in list order.
pub open spec fn spec_concat_payloads(s: Seq<GFrag>) -> Seq<u8>
    decreases s.len(),
{
    if s.len() == 0 {
        Seq::empty()
    } else {
        spec_concat_payloads(s.drop_last()) + s.last().payload
    }
}

proof fn lemma_insert_z_at(x: GFrag, s: Seq<GFrag>, idx: int)
    requires
        0 <= idx <= s.len(),
        forall|k: int| 0 <= k < idx ==> s[k].z <= x.z,
        idx < s.len() ==> s[idx].z > x.z,
    ensures
        spec_insert_z(x, s) == s.insert(idx, x),
    decreases s.len(),
{
    if s.len() == 0 {
        assert(spec_insert_z(x, s) =~= s.insert(0, x));
    } else if idx == 0 {
        assert(spec_insert_z(x, s) =~= s.insert(0, x));
    } else {
        assert(s[0].z <= x.z);
        lemma_insert_z_at(x, s.skip(1), idx - 1);
        assert(spec_insert_z(x, s) == seq![s[0]] + s.skip(1).insert(idx - 1, x));
        assert(seq![s[0]] + s.skip(1).insert(idx - 1, x) =~= s.insert(idx, x));
    }
}

fn frag_insert_z(v: &mut Vec<JpegFragment>, x: JpegFragment)
    ensures
        frags_view(final(v)@) == spec_insert_z(x.view(), frags_view(old(v)@)),
{
    let n = v.len();
    let mut idx: usize = 0;
    while idx < n && v[idx].z <= x.z
        invariant
            idx <= n == v@.len(),
            forall|k: int| 0 <= k < idx ==> v@[k].z <= x.z,
        decreases n - idx,
    {
        idx = idx + 1;
    }
    proof {
        assert(forall|k: int| 0 <= k < idx ==> frags_view(v@)[k].z <= x.view().z);
        assert(idx < v@.len() ==> frags_view(v@)[idx as int].z > x.view().z);
        lemma_insert_z_at(x.view(), frags_view(v@), idx as int);
    }
    let ghost before = v@;
    v.insert(idx, x);
    proof {
        assert(frags_view(v@) =~= frags_view(before).insert(idx as int, x.view()));
    }
}

/// Append the bytes of `src` to `out`.
pub fn append_bytes(out: &mut Vec<u8>, src: &Vec<u8>)
    ensures
        final(out)@ == old(out)@ + src@,
{
    let n = src.len();
    let mut k: usize = 0;
    while k < n
        invariant
            k <= n == src@.len(),
            out@ == old(out)@ + src@.take(k as int),
        decreases n - k,
    {
        out.push(src[k]);
        proof {
            assert(old(out)@ + src@.take(k + 1) =~= (old(out)@ + src@.take(k as int)).push(
                src@[k as int]));
        }
        k = k + 1;
    }
    proof {
        assert(src@.take(n as int) =~= src@);
    }
}

/// Reassemble the JUMBF payload from a fragment list: the group with
/// the lowest instance number, ordered by packet sequence number, with
/// order of arrival kept among equal sequence numbers.
pub open spec fn spec_reassemble(frags: Seq<GFrag>) -> Seq<u8> {
    spec_concat_payloads(spec_sort_z(spec_filter_en(frags, spec_min_en(frags))))
}

fn reassemble(frags: Vec<JpegFragment>) -> (r: Vec<u8>)
    ensures
        r@ == spec_reassemble(frags_view(frags@)),
{
    let ghost gall = frags_view(frags@);
    let n = frags.len();
    // lowest instance number
    let mut m: u32 = 0x10000;
    let mut i: usize = 0;
    while i < n
        invariant
            i <= n == frags@.len(),
            m == spec_min_en(gall.take(i as int)),
            gall == frags_view(frags@),
        decreases n - i,
    {
        proof {
            assert(gall.take(i + 1).drop_last() =~= gall.take(i as int));
            assert(gall.take(i + 1).last() == frags@[i as int].view());
        }
        if (frags[i].en as u32) < m {
            m = frags[i].en as u32;
        }
        i = i + 1;
    }
    proof {
        assert(gall.take(n as int) =~= gall);
    }
    // group with that instance number, sorted by sequence number
    let mut rest = frags;
    let mut sorted: Vec<JpegFragment> = Vec::new();
    let ghost mut done: int = 0;
    while rest.len() > 0
        invariant
            0 <= done <= gall.len(),
            frags_view(rest@) == gall.skip(done),
            frags_view(sorted@) == spec_sort_z(spec_filter_en(gall.take(done), m as int)),
        decreases rest@.len(),
    {
        proof {
            assert(gall.skip(done).len() == gall.len() - done);
        }
        let ghost prev = rest@;
        let f = rest.remove(0);
        proof {
            assert(f.view() == gall.skip(done)[0]);
            assert(gall.skip(done)[0] == gall[done]);
            assert(rest@ =~= prev.skip(1));
            assert(frags_view(prev.skip(1)) =~= frags_view(prev).skip(1));
            assert(frags_view(prev).skip(1) =~= gall.skip(done + 1));
            assert(gall.take(done + 1).drop_last() =~= gall.take(done));
            assert(gall.take(done + 1).last() == gall[done]);
        }
        if f.en as u32 == m {
            proof {
                assert(spec_filter_en(gall.take(done + 1), m as int) == spec_filter_en(
                    gall.take(done), m as int) + seq![gall[done]]);
                let g = spec_filter_en(gall.take(done + 1), m as int);
                assert(g.drop_last() =~= spec_filter_en(gall.take(done), m as int));
                assert(g.last() == gall[done]);
            }
            frag_insert_z(&mut sorted, f);
        } else {
            proof {
                assert(spec_filter_en(gall.take(done + 1), m as int) =~= spec_filter_en(
                    gall.take(done), m as int));
            }
        }
        proof {
            done = done + 1;
        }
    }
    proof {
        assert(gall.take(gall.len() as int) =~= gall);
    }
    // concatenate the payloads in order
    let ghost gsorted = frags_view(sorted@);
    let mut out: Vec<u8> = Vec::new();
    let mut work = sorted;
    let ghost mut used: int = 0;
    while work.len() > 0
        invariant
            0 <= used <= gsorted.len(),
            frags_view(work@) == gsorted.skip(used),
            out@ == spec_concat_payloads(gsorted.take(used)),
        decreases work@.len(),
    {
        proof {
            assert(gsorted.skip(used).len() == gsorted.len() - used);
        }
        let ghost prev = work@;
        let f = work.remove(0);
        proof {
            assert(f.view() == gsorted.skip(used)[0]);
            assert(gsorted.skip(used)[0] == gsorted[used]);
            assert(work@ =~= prev.skip(1));
            assert(frags_view(prev.skip(1)) =~= frags_view(prev).skip(1));
            assert(frags_view(prev).skip(1) =~= gsorted.skip(used + 1));
            assert(gsorted.take(used + 1).drop_last() =~= gsorted.take(used));
            assert(gsorted.take(used + 1).last() == gsorted[used]);
        }
        append_bytes(&mut out, &f.payload);
        proof {
            used = used + 1;
        }
    }
    proof {
        assert(gsorted.take(gsorted.len() as int) =~= gsorted);
    }
    out
}

/// The JUMBF payload of a JPEG: the reassembled fragment group with
/// the lowest instance number, or nothing when the start-of-image
/// marker is absent, no fragment was found, or the group is empty.
pub open spec fn spec_extract_c2pa_from_jpeg(d: Seq<u8>) -> Option<Seq<u8>> {
    if !spec_is_jpeg(d) {
        None
    } else {
        let frags = spec_jpeg_scan(d, 2);
        if frags.len() == 0 {
            None
        } else {
            let j = spec_reassemble(frags);
            if j.len() == 0 {
                None
            } else {
                Some(j)
            }
        }
    }
}

/// Extract C2PA JUMBF data from JPEG APP11 marker segments.
pub fn extract_c2pa_from_jpeg(data: &[u8]) -> (r: Option<Vec<u8>>)
    ensures
        match r {
            Some(v) => spec_extract_c2pa_from_jpeg(data@) == Some(v@),
            None => spec_extract_c2pa_from_jpeg(data@) is None,
        },
{
    if !is_jpeg(data) {
        return None;
    }
    let frags = jpeg_scan(data, 2);
    if frags.len() == 0 {
        proof {
            assert(frags_view(frags@).len() == 0);
        }
        return None;
    }
    let j = reassemble(frags);
    if j.len() == 0 {
        None
    } else {
        Some(j)
    }
}

} // verus!
