//! JUMBF box walker: ISO-BMFF-style box framing with 32-bit, extended
//! 64-bit, and to-end-of-parent sizes; description-box labels; and the
//! extraction of the active manifest's claim CBOR, COSE envelope, and
//! assertion boxes.

use vstd::prelude::*;
use crate::bytes::{spec_u32_be, spec_u64_be, spec_find_nul, u32_be, find_nul, sub_vec, range_eq};
use crate::utf8::{spec_valid_utf8, is_valid_utf8};

verus! {

/// Box type `jumb`, packed big-endian.
pub const JUMB_TYPE: u32 = 0x6a756d62;

/// Box type `jumd`, packed big-endian.
pub const JUMD_TYPE: u32 = 0x6a756d64;

/// Box type `cbor`, packed big-endian.
pub const CBOR_TYPE: u32 = 0x63626f72;

/// Box type `bfdb`, packed big-endian.
pub const BFDB_TYPE: u32 = 0x62666462;

/// One parsed box: its type, packed big-endian, and its content bytes.
pub struct BmffBox {
    pub box_type: u32,
    pub data: Vec<u8>,
}

/// The ghost image of a box.
pub ghost struct GBox {
    pub box_type: int,
    pub data: Seq<u8>,
}

impl BmffBox {
    pub open spec fn view(&self) -> GBox {
        GBox { box_type: self.box_type as int, data: self.data@ }
    }
}

/// The ghost image of a box list.
pub open spec fn boxes_view(s: Seq<BmffBox>) -> Seq<GBox> {
    s.map(|i: int, b: BmffBox| b.view())
}

/// The header size and full size of a well-formed box at `pos`:
/// `size == 1` means a 64-bit extended size follows the type, and
/// `size == 0` means the box extends to the end of the data.
pub open spec fn spec_box_at(d: Seq<u8>, pos: int) -> Option<(int, int)> {
    if pos < 0 || pos + 8 > d.len() {
        None
    } else {
        let size32 = spec_u32_be(d, pos);
        if size32 == 1 && pos + 16 > d.len() {
            None
        } else {
            let hdr: int = if size32 == 1 {
                16
            } else {
                8
            };
            let bsize: int = if size32 == 1 {
                spec_u64_be(d, pos + 8)
            } else if size32 == 0 {
                d.len() - pos
            } else {
                size32
            };
            if bsize < hdr || pos + bsize > d.len() {
                None
            } else {
                Some((hdr, bsize))
            }
        }
    }
}

pub fn box_at(d: &[u8], pos: usize) -> (r: Option<(usize, usize)>)
    ensures
        match r {
            Some(p) => spec_box_at(d@, pos as int) == Some((p.0 as int, p.1 as int)) && pos + p.1
                <= d@.len() && p.0 <= p.1,
            None => spec_box_at(d@, pos as int) is None,
        },
{
    let n = d.len();
    if pos > n || n - pos < 8 {
        return None;
    }
    let size32 = u32_be(d, pos);
    if size32 == 1 && n - pos < 16 {
        return None;
    }
    let hdr: usize = if size32 == 1 {
        16
    } else {
        8
    };
    let bsize: u64 = if size32 == 1 {
        crate::bytes::u64_be(d, pos + 8)
    } else if size32 == 0 {
        (n - pos) as u64
    } else {
        size32 as u64
    };
    if bsize < hdr as u64 || bsize > (n - pos) as u64 {
        return None;
    }
    Some((hdr, bsize as usize))
}

/// The consecutive boxes from `pos` onward; the walk stops at the
/// first malformed header.
pub open spec fn spec_parse_boxes_from(d: Seq<u8>, pos: int) -> Seq<GBox>
    decreases d.len() - pos,
{
    match spec_box_at(d, pos) {
        None => Seq::empty(),
        Some((hdr, bsize)) => seq![
            GBox { box_type: spec_u32_be(d, pos + 4), data: d.subrange(pos + hdr, pos + bsize) },
        ] + spec_parse_boxes_from(d, pos + bsize),
    }
}

/// The boxes of a byte sequence, from its start.
pub open spec fn spec_parse_boxes(d: Seq<u8>) -> Seq<GBox> {
    spec_parse_boxes_from(d, 0)
}

fn parse_boxes_from(d: &[u8], pos: usize) -> (r: Vec<BmffBox>)
    ensures
        boxes_view(r@) == spec_parse_boxes_from(d@, pos as int),
    decreases d@.len() - pos,
{
    match box_at(d, pos) {
        None => {
            let r: Vec<BmffBox> = Vec::new();
            proof {
                assert(boxes_view(r@) =~= spec_parse_boxes_from(d@, pos as int));
            }
            r
        },
        Some((hdr, bsize)) => {
            let n = d.len();
            proof {
                assert(pos + bsize <= n);
            }
            let b = BmffBox { box_type: u32_be(d, pos + 4), data: sub_vec(d, pos + hdr, pos
                + bsize) };
            let mut rest = parse_boxes_from(d, pos + bsize);
            let mut out: Vec<BmffBox> = Vec::new();
            out.push(b);
            out.append(&mut rest);
            proof {
                assert(boxes_view(out@) =~= spec_parse_boxes_from(d@, pos as int));
            }
            out
        },
    }
}

/// Parse consecutive JUMBF boxes from a byte slice.
pub fn parse_boxes(data: &[u8]) -> (r: Vec<BmffBox>)
    ensures
        boxes_view(r@) == spec_parse_boxes(data@),
{
    parse_boxes_from(data, 0)
}

/// The label of a JUMBF description box's content, when the label bit
/// of the toggles is set and the NUL-terminated label is well-formed
/// UTF-8. Layout: 16-byte UUID, 1-byte toggles, then the label.
pub open spec fn spec_parse_jumd_label(d: Seq<u8>) -> Option<Seq<u8>> {
    if d.len() < 17 {
        None
    } else if d[16] & 0x02 == 0 {
        None
    } else {
        match spec_find_nul(d, 17) {
            None => None,
            Some(k) => {
                let lab = d.subrange(17, 17 + k);
                if spec_valid_utf8(lab) {
                    Some(lab)
                } else {
                    None
                }
            },
        }
    }
}

/// Extract the label from a JUMD (JUMBF description) box's content.
pub fn parse_jumd_label(data: &[u8]) -> (r: Option<Vec<u8>>)
    ensures
        match r {
            Some(v) => spec_parse_jumd_label(data@) == Some(v@),
            None => spec_parse_jumd_label(data@) is None,
        },
{
    if data.len() < 17 {
        return None;
    }
    if data[16] & 0x02 == 0 {
        return None;
    }
    match find_nul(data, 17) {
        None => None,
        Some(k) => {
            let lab = sub_vec(data, 17, 17 + k);
            if is_valid_utf8(lab.as_slice()) {
                Some(lab)
            } else {
                None
            }
        },
    }
}

/// The content of a `bfdb` box after its toggle byte and the optional
/// NUL-terminated media-type and file-name strings.
pub open spec fn spec_skip_bfdb(d: Seq<u8>) -> Seq<u8> {
    if d.len() == 0 {
        d
    } else {
        let toggle = d[0];
        let p1: int = if toggle & 0x01 != 0 {
            match spec_find_nul(d, 1) {
                Some(k) => 1 + k + 1,
                None => 1,
            }
        } else {
            1
        };
        let p2: int = if toggle & 0x02 != 0 {
            match spec_find_nul(d, p1) {
                Some(k) => p1 + k + 1,
                None => p1,
            }
        } else {
            p1
        };
        d.skip(p2)
    }
}

/// For a `bfdb` (embedded file content) box, skip the toggle byte and
/// optional media-type and file-name strings to reach the raw content.
pub fn skip_bfdb_header(data: &[u8]) -> (r: Vec<u8>)
    ensures
        r@ == spec_skip_bfdb(data@),
{
    let n = data.len();
    if n == 0 {
        let r = sub_vec(data, 0, 0);
        proof {
            assert(r@ =~= spec_skip_bfdb(data@));
        }
        return r;
    }
    let toggle = data[0];
    let mut pos: usize = 1;
    if toggle & 0x01 != 0 {
        if let Some(k) = find_nul(data, 1) {
            pos = 1 + k + 1;
        }
    }
    if toggle & 0x02 != 0 {
        if let Some(k) = find_nul(data, pos) {
            pos = pos + k + 1;
        }
    }
    let r = sub_vec(data, pos, n);
    proof {
        assert(r@ =~= spec_skip_bfdb(data@));
    }
    r
}

/// The content of a box, with the `bfdb` envelope stripped.
pub open spec fn spec_embedded_content(b: GBox) -> Seq<u8> {
    if b.box_type == BFDB_TYPE {
        spec_skip_bfdb(b.data)
    } else {
        b.data
    }
}

/// For a `bfdb` box, the embedded content after its header; for any
/// other box, the content as it stands.
pub fn extract_embedded_content(content_box: &BmffBox) -> (r: Vec<u8>)
    ensures
        r@ == spec_embedded_content(content_box.view()),
{
    if content_box.box_type == BFDB_TYPE {
        skip_bfdb_header(content_box.data.as_slice())
    } else {
        sub_vec(content_box.data.as_slice(), 0, content_box.data.len())
    }
}

/// One assertion: the label of its description box and its content.
pub struct AssertionBox {
    pub label: Vec<u8>,
    pub data: Vec<u8>,
}

/// The ghost image of an assertion.
pub ghost struct GAssert {
    pub label: Seq<u8>,
    pub data: Seq<u8>,
}

impl AssertionBox {
    pub open spec fn view(&self) -> GAssert {
        GAssert { label: self.label@, data: self.data@ }
    }
}

/// The ghost image of an assertion list.
pub open spec fn asserts_view(s: Seq<AssertionBox>) -> Seq<GAssert> {
    s.map(|i: int, a: AssertionBox| a.view())
}

/// The ASCII bytes of the label prefix `c2pa.claim`.
pub open spec fn spec_label_claim() -> Seq<u8> {
    seq![0x63u8, 0x32, 0x70, 0x61, 0x2e, 0x63, 0x6c, 0x61, 0x69, 0x6d]
}

/// The ASCII bytes of the label prefix `c2pa.signature`.
pub open spec fn spec_label_signature() -> Seq<u8> {
    seq![0x63u8, 0x32, 0x70, 0x61, 0x2e, 0x73, 0x69, 0x67, 0x6e, 0x61, 0x74, 0x75, 0x72, 0x65]
}

/// The ASCII bytes of the label `c2pa.assertions`.
pub open spec fn spec_label_assertions() -> Seq<u8> {
    seq![0x63u8, 0x32, 0x70, 0x61, 0x2e, 0x61, 0x73, 0x73, 0x65, 0x72, 0x74, 0x69, 0x6f, 0x6e,
        0x73]
}

/// The label prefix `c2pa.claim`, as a vector.
pub fn label_claim() -> (r: Vec<u8>)
    ensures
        r@ == spec_label_claim(),
{
    let mut v: Vec<u8> = Vec::new();
    v.push(0x63);
    v.push(0x32);
    v.push(0x70);
    v.push(0x61);
    v.push(0x2e);
    v.push(0x63);
    v.push(0x6c);
    v.push(0x61);
    v.push(0x69);
    v.push(0x6d);
    proof {
        assert(v@ =~= spec_label_claim());
    }
    v
}

/// The label prefix `c2pa.signature`, as a vector.
pub fn label_signature() -> (r: Vec<u8>)
    ensures
        r@ == spec_label_signature(),
{
    let mut v: Vec<u8> = Vec::new();
    v.push(0x63);
    v.push(0x32);
    v.push(0x70);
    v.push(0x61);
    v.push(0x2e);
    v.push(0x73);
    v.push(0x69);
    v.push(0x67);
    v.push(0x6e);
    v.push(0x61);
    v.push(0x74);
    v.push(0x75);
    v.push(0x72);
    v.push(0x65);
    proof {
        assert(v@ =~= spec_label_signature());
    }
    v
}

/// The label `c2pa.assertions`, as a vector.
pub fn label_assertions() -> (r: Vec<u8>)
    ensures
        r@ == spec_label_assertions(),
{
    let mut v: Vec<u8> = Vec::new();
    v.push(0x63);
    v.push(0x32);
    v.push(0x70);
    v.push(0x61);
    v.push(0x2e);
    v.push(0x61);
    v.push(0x73);
    v.push(0x73);
    v.push(0x65);
    v.push(0x72);
    v.push(0x74);
    v.push(0x69);
    v.push(0x6f);
    v.push(0x6e);
    v.push(0x73);
    proof {
        assert(v@ =~= spec_label_assertions());
    }
    v
}

/// Whether `s` begins with `pat`.
pub open spec fn spec_starts_with(s: Seq<u8>, pat: Seq<u8>) -> bool {
    s.len() >= pat.len() && s.subrange(0, pat.len() as int) == pat
}

/// The label of a child box's first inner box, when that box is a
/// description box.
pub open spec fn spec_child_label(inner: Seq<GBox>) -> Option<Seq<u8>> {
    if inner.len() >= 1 && inner[0].box_type == JUMD_TYPE {
        spec_parse_jumd_label(inner[0].data)
    } else {
        None
    }
}

fn child_label(inner: &Vec<BmffBox>) -> (r: Option<Vec<u8>>)
    ensures
        match r {
            Some(v) => spec_child_label(boxes_view(inner@)) == Some(v@),
            None => spec_child_label(boxes_view(inner@)) is None,
        },
{
    if inner.len() >= 1 && inner[0].box_type == JUMD_TYPE {
        parse_jumd_label(inner[0].data.as_slice())
    } else {
        None
    }
}

/// The claim CBOR carried by one child of a manifest: the next sibling
/// box's raw content, where the child's label begins with `c2pa.claim`.
pub open spec fn spec_child_claim(c: GBox) -> Option<Seq<u8>> {
    if c.box_type != JUMB_TYPE {
        None
    } else {
        let inner = spec_parse_boxes(c.data);
        match spec_child_label(inner) {
            Some(l) => if spec_starts_with(l, spec_label_claim()) && inner.len() >= 2 {
                Some(inner[1].data)
            } else {
                None
            },
            None => None,
        }
    }
}

fn child_claim(c: &BmffBox) -> (r: Option<Vec<u8>>)
    ensures
        match r {
            Some(v) => spec_child_claim(c.view()) == Some(v@),
            None => spec_child_claim(c.view()) is None,
        },
{
    if c.box_type != JUMB_TYPE {
        return None;
    }
    let inner = parse_boxes(c.data.as_slice());
    match child_label(&inner) {
        Some(l) => {
            let pat = label_claim();
            if range_eq(l.as_slice(), 0, pat.as_slice()) && inner.len() >= 2 {
                Some(sub_vec(inner[1].data.as_slice(), 0, inner[1].data.len()))
            } else {
                None
            }
        },
        None => None,
    }
}

/// The COSE envelope carried by one child of a manifest: the next
/// sibling's content with any `bfdb` wrapper stripped, where the
/// child's label begins with `c2pa.signature`.
pub open spec fn spec_child_sig(c: GBox) -> Option<Seq<u8>> {
    if c.box_type != JUMB_TYPE {
        None
    } else {
        let inner = spec_parse_boxes(c.data);
        match spec_child_label(inner) {
            Some(l) => if spec_starts_with(l, spec_label_signature()) && inner.len() >= 2 {
                Some(spec_embedded_content(inner[1]))
            } else {
                None
            },
            None => None,
        }
    }
}

fn child_sig(c: &BmffBox) -> (r: Option<Vec<u8>>)
    ensures
        match r {
            Some(v) => spec_child_sig(c.view()) == Some(v@),
            None => spec_child_sig(c.view()) is None,
        },
{
    if c.box_type != JUMB_TYPE {
        return None;
    }
    let inner = parse_boxes(c.data.as_slice());
    match child_label(&inner) {
        Some(l) => {
            let pat = label_signature();
            if range_eq(l.as_slice(), 0, pat.as_slice()) && inner.len() >= 2 {
                Some(extract_embedded_content(&inner[1]))
            } else {
                None
            }
        },
        None => None,
    }
}

/// The claim CBOR of a manifest's children: the last child whose label
/// begins with `c2pa.claim` wins.
pub open spec fn spec_find_claim(children: Seq<GBox>) -> Option<Seq<u8>>
    decreases children.len(),
{
    if children.len() == 0 {
        None
    } else {
        match spec_child_claim(children.last()) {
            Some(v) => Some(v),
            None => spec_find_claim(children.drop_last()),
        }
    }
}

/// The COSE envelope of a manifest's children: the last child whose
/// label begins with `c2pa.signature` wins.
pub open spec fn spec_find_sig(children: Seq<GBox>) -> Option<Seq<u8>>
    decreases children.len(),
{
    if children.len() == 0 {
        None
    } else {
        match spec_child_sig(children.last()) {
            Some(v) => Some(v),
            None => spec_find_sig(children.drop_last()),
        }
    }
}

/// The assertion contributed by one box of an assertion store: its
/// label and its content with any `bfdb` wrapper stripped.
pub open spec fn spec_assert_of_child(c: GBox) -> Seq<GAssert> {
    if c.box_type != JUMB_TYPE {
        Seq::empty()
    } else {
        let inner = spec_parse_boxes(c.data);
        match spec_child_label(inner) {
            Some(l) => if inner.len() >= 2 {
                seq![GAssert { label: l, data: spec_embedded_content(inner[1]) }]
            } else {
                Seq::empty()
            },
            None => Seq::empty(),
        }
    }
}

fn assert_of_child(c: &BmffBox, out: &mut Vec<AssertionBox>)
    ensures
        asserts_view(final(out)@) == asserts_view(old(out)@) + spec_assert_of_child(c.view()),
{
    if c.box_type != JUMB_TYPE {
        proof {
            assert(asserts_view(out@) =~= asserts_view(out@) + spec_assert_of_child(c.view()));
        }
        return;
    }
    let inner = parse_boxes(c.data.as_slice());
    match child_label(&inner) {
        Some(l) => {
            if inner.len() >= 2 {
                let a = AssertionBox { label: l, data: extract_embedded_content(&inner[1]) };
                let ghost before = out@;
                out.push(a);
                proof {
                    assert(asserts_view(out@) =~= asserts_view(before) + spec_assert_of_child(
                        c.view()));
                }
            } else {
                proof {
                    assert(asserts_view(out@) =~= asserts_view(out@) + spec_assert_of_child(
                        c.view()));
                }
            }
        },
        None => {
            proof {
                assert(asserts_view(out@) =~= asserts_view(out@) + spec_assert_of_child(c.view()));
            }
        },
    }
}

/// The assertions of an assertion store's boxes from index `start` on.
pub open spec fn spec_assertions_from(s: Seq<GBox>, start: int) -> Seq<GAssert>
    decreases s.len() - start,
{
    if start < 0 || start >= s.len() {
        Seq::empty()
    } else {
        spec_assert_of_child(s[start]) + spec_assertions_from(s, start + 1)
    }
}

/// Parse individual assertion boxes from an assertion store superbox,
/// starting at `start`, appending to `out`.
pub fn extract_assertions_from_store(children: &Vec<BmffBox>, start: usize, out: &mut Vec<
    AssertionBox,
>)
    ensures
        asserts_view(final(out)@) == asserts_view(old(out)@) + spec_assertions_from(
            boxes_view(children@),
            start as int,
        ),
    decreases children@.len() - start,
{
    if start >= children.len() {
        proof {
            assert(asserts_view(out@) =~= asserts_view(out@) + spec_assertions_from(
                boxes_view(children@), start as int));
        }
        return;
    }
    assert_of_child(&children[start], out);
    extract_assertions_from_store(children, start + 1, out);
    proof {
        assert(asserts_view(out@) =~= asserts_view(old(out)@) + spec_assertions_from(
            boxes_view(children@), start as int));
    }
}

/// The assertions contributed by one manifest child labelled
/// `c2pa.assertions`: one level of recursion into its store.
pub open spec fn spec_child_assert_store(c: GBox) -> Seq<GAssert> {
    if c.box_type != JUMB_TYPE {
        Seq::empty()
    } else {
        let inner = spec_parse_boxes(c.data);
        match spec_child_label(inner) {
            Some(l) => if l == spec_label_assertions() {
                spec_assertions_from(inner, 1)
            } else {
                Seq::empty()
            },
            None => Seq::empty(),
        }
    }
}

fn child_assert_store(c: &BmffBox, out: &mut Vec<AssertionBox>)
    ensures
        asserts_view(final(out)@) == asserts_view(old(out)@) + spec_child_assert_store(c.view()),
{
    if c.box_type != JUMB_TYPE {
        proof {
            assert(asserts_view(out@) =~= asserts_view(out@) + spec_child_assert_store(c.view()));
        }
        return;
    }
    let inner = parse_boxes(c.data.as_slice());
    match child_label(&inner) {
        Some(l) => {
            let pat = label_assertions();
            if l.len() == pat.len() && range_eq(l.as_slice(), 0, pat.as_slice()) {
                proof {
                    assert(l@ =~= spec_label_assertions());
                }
                extract_assertions_from_store(&inner, 1, out);
            } else {
                proof {
                    assert(l@.subrange(0, l@.len() as int) =~= l@);
                    assert(l@ != spec_label_assertions());
                    assert(asserts_view(out@) =~= asserts_view(out@) + spec_child_assert_store(
                        c.view()));
                }
            }
        },
        None => {
            proof {
                assert(asserts_view(out@) =~= asserts_view(out@) + spec_child_assert_store(
                    c.view()));
            }
        },
    }
}

/// The assertions of one manifest, across its children in order.
pub open spec fn spec_manifest_asserts(m: GBox, i: int) -> Seq<GAssert>
    decreases spec_parse_boxes(m.data).len() - i,
{
    let children = spec_parse_boxes(m.data);
    if i < 0 || i >= children.len() {
        Seq::empty()
    } else {
        spec_child_assert_store(children[i]) + spec_manifest_asserts(m, i + 1)
    }
}

fn manifest_asserts(m: &BmffBox, out: &mut Vec<AssertionBox>)
    ensures
        asserts_view(final(out)@) == asserts_view(old(out)@) + spec_manifest_asserts(m.view(), 0),
{
    let children = parse_boxes(m.data.as_slice());
    let n = children.len();
    let mut i: usize = 0;
    while i < n
        invariant
            i <= n == children@.len(),
            boxes_view(children@) == spec_parse_boxes(m.view().data),
            asserts_view(out@) + spec_manifest_asserts(m.view(), i as int) == asserts_view(
                old(out)@) + spec_manifest_asserts(m.view(), 0),
        decreases n - i,
    {
        child_assert_store(&children[i], out);
        proof {
            assert(spec_manifest_asserts(m.view(), i as int) == spec_child_assert_store(
                boxes_view(children@)[i as int]) + spec_manifest_asserts(m.view(), i + 1));
        }
        i = i + 1;
    }
    proof {
        assert(spec_manifest_asserts(m.view(), n as int) =~= Seq::<GAssert>::empty());
        assert(asserts_view(out@) =~= asserts_view(out@) + Seq::<GAssert>::empty());
    }
}

/// The first `jumb` box of a list, from index `i` on.
pub open spec fn spec_first_jumb_from(s: Seq<GBox>, i: int) -> Option<GBox>
    decreases s.len() - i,
{
    if i < 0 || i >= s.len() {
        None
    } else if s[i].box_type == JUMB_TYPE {
        Some(s[i])
    } else {
        spec_first_jumb_from(s, i + 1)
    }
}

/// A copy of a parsed box.
fn box_copy(b: &BmffBox) -> (r: BmffBox)
    ensures
        r.view() == b.view(),
{
    let data = sub_vec(b.data.as_slice(), 0, b.data.len());
    proof {
        assert(data@ =~= b.data@);
    }
    BmffBox { box_type: b.box_type, data }
}

fn first_jumb_from(s: &Vec<BmffBox>, i: usize) -> (r: Option<BmffBox>)
    ensures
        match r {
            Some(b) => spec_first_jumb_from(boxes_view(s@), i as int) == Some(b.view()),
            None => spec_first_jumb_from(boxes_view(s@), i as int) is None,
        },
    decreases s@.len() - i,
{
    if i >= s.len() {
        None
    } else if s[i].box_type == JUMB_TYPE {
        Some(box_copy(&s[i]))
    } else {
        first_jumb_from(s, i + 1)
    }
}

/// The `jumb` boxes of a list, in order.
pub open spec fn spec_filter_jumb(s: Seq<GBox>) -> Seq<GBox>
    decreases s.len(),
{
    if s.len() == 0 {
        Seq::empty()
    } else {
        spec_filter_jumb(s.drop_last()) + if s.last().box_type == JUMB_TYPE {
            seq![s.last()]
        } else {
            Seq::empty()
        }
    }
}

fn filter_jumb(s: &Vec<BmffBox>) -> (r: Vec<BmffBox>)
    ensures
        boxes_view(r@) == spec_filter_jumb(boxes_view(s@)),
{
    let n = s.len();
    let mut out: Vec<BmffBox> = Vec::new();
    let mut i: usize = 0;
    while i < n
        invariant
            i <= n == s@.len(),
            boxes_view(out@) == spec_filter_jumb(boxes_view(s@).take(i as int)),
        decreases n - i,
    {
        proof {
            assert(boxes_view(s@).take(i + 1).drop_last() =~= boxes_view(s@).take(i as int));
            assert(boxes_view(s@).take(i + 1).last() == s@[i as int].view());
        }
        if s[i].box_type == JUMB_TYPE {
            let ghost before = out@;
            out.push(box_copy(&s[i]));
            proof {
                assert(boxes_view(out@) =~= boxes_view(before) + seq![s@[i as int].view()]);
            }
        } else {
            proof {
                assert(boxes_view(out@) =~= boxes_view(out@) + Seq::<GBox>::empty());
            }
        }
        i = i + 1;
    }
    proof {
        assert(boxes_view(s@).take(n as int) =~= boxes_view(s@));
    }
    out
}

/// The assertions of every manifest, in manifest order.
pub open spec fn spec_all_asserts(manifests: Seq<GBox>) -> Seq<GAssert>
    decreases manifests.len(),
{
    if manifests.len() == 0 {
        Seq::empty()
    } else {
        spec_all_asserts(manifests.drop_last()) + spec_manifest_asserts(manifests.last(), 0)
    }
}

/// The claim CBOR, COSE envelope, and assertions of a JUMBF payload.
/// The top-level `jumb` box is the manifest store; its last `jumb`
/// child is the active manifest, from which the claim and signature
/// come; assertions are collected across every manifest.
pub open spec fn spec_extract_manifest_parts(j: Seq<u8>) -> Option<(Seq<u8>, Seq<u8>, Seq<
    GAssert,
>)> {
    match spec_first_jumb_from(spec_parse_boxes(j), 0) {
        None => None,
        Some(store) => {
            let manifests = spec_filter_jumb(spec_parse_boxes(store.data));
            if manifests.len() == 0 {
                None
            } else {
                let active = manifests.last();
                let children = spec_parse_boxes(active.data);
                match (spec_find_claim(children), spec_find_sig(children)) {
                    (Some(c), Some(s)) => Some((c, s, spec_all_asserts(manifests))),
                    _ => None,
                }
            }
        },
    }
}

/// Walk the JUMBF box tree to find the claim CBOR, the COSE_Sign1
/// envelope, and the assertion boxes. Claim and signature come from
/// the active (last) manifest; assertions from all manifests.
pub fn extract_manifest_parts(jumbf: &[u8]) -> (r: Option<(Vec<u8>, Vec<u8>, Vec<AssertionBox>)>)
    ensures
        match r {
            Some(p) => spec_extract_manifest_parts(jumbf@) == Some((p.0@, p.1@, asserts_view(
                p.2@))),
            None => spec_extract_manifest_parts(jumbf@) is None,
        },
{
    let top = parse_boxes(jumbf);
    let store = match first_jumb_from(&top, 0) {
        None => {
            return None;
        },
        Some(b) => b,
    };
    let store_children = parse_boxes(store.data.as_slice());
    let manifests = filter_jumb(&store_children);
    let n = manifests.len();
    if n == 0 {
        return None;
    }
    let ghost gmanifests = boxes_view(manifests@);
    let active = &manifests[n - 1];
    proof {
        assert(active.view() == gmanifests.last());
    }
    let children = parse_boxes(active.data.as_slice());
    // claim and signature: the last matching child wins
    let mut claim: Option<Vec<u8>> = None;
    let mut sig: Option<Vec<u8>> = None;
    let cn = children.len();
    let mut i: usize = 0;
    while i < cn
        invariant
            i <= cn == children@.len(),
            boxes_view(children@) == spec_parse_boxes(active.view().data),
            match claim {
                Some(v) => spec_find_claim(boxes_view(children@).take(i as int)) == Some(v@),
                None => spec_find_claim(boxes_view(children@).take(i as int)) is None,
            },
            match sig {
                Some(v) => spec_find_sig(boxes_view(children@).take(i as int)) == Some(v@),
                None => spec_find_sig(boxes_view(children@).take(i as int)) is None,
            },
        decreases cn - i,
    {
        proof {
            assert(boxes_view(children@).take(i + 1).drop_last() =~= boxes_view(children@).take(
                i as int));
            assert(boxes_view(children@).take(i + 1).last() == children@[i as int].view());
        }
        if let Some(v) = child_claim(&children[i]) {
            claim = Some(v);
        }
        if let Some(v) = child_sig(&children[i]) {
            sig = Some(v);
        }
        i = i + 1;
    }
    proof {
        assert(boxes_view(children@).take(cn as int) =~= boxes_view(children@));
    }
    // assertions across all manifests
    let mut asserts: Vec<AssertionBox> = Vec::new();
    let mut m: usize = 0;
    while m < n
        invariant
            m <= n == manifests@.len(),
            gmanifests == boxes_view(manifests@),
            asserts_view(asserts@) == spec_all_asserts(gmanifests.take(m as int)),
        decreases n - m,
    {
        proof {
            assert(gmanifests.take(m + 1).drop_last() =~= gmanifests.take(m as int));
            assert(gmanifests.take(m + 1).last() == manifests@[m as int].view());
        }
        manifest_asserts(&manifests[m], &mut asserts);
        m = m + 1;
    }
    proof {
        assert(gmanifests.take(n as int) =~= gmanifests);
    }
    match (claim, sig) {
        (Some(c), Some(s)) => Some((c, s, asserts)),
        _ => None,
    }
}

} // verus!
