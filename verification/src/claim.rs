//! Claim and action projection from verified CBOR: the software agent
//! from `claim_generator_info` (v2) or `claim_generator` (v1), and the
//! first non-empty `digitalSourceType` and `when` values from the
//! actions assertions.

use vstd::prelude::*;
use crate::cbor::{spec_cbor_head, spec_cbor_skip, spec_map_value_text, cbor_head, cbor_skip,
    map_value_text};
use crate::jumbf::{GAssert, AssertionBox, asserts_view, spec_starts_with};
use crate::bytes::{sub_vec, range_eq};
use crate::utf8::{spec_valid_utf8, is_valid_utf8};

verus! {

/// The ASCII bytes of the key `claim_generator_info`.
pub open spec fn spec_key_cgi() -> Seq<u8> {
    seq![0x63u8, 0x6c, 0x61, 0x69, 0x6d, 0x5f, 0x67, 0x65, 0x6e, 0x65, 0x72, 0x61, 0x74, 0x6f,
        0x72, 0x5f, 0x69, 0x6e, 0x66, 0x6f]
}

/// The ASCII bytes of the key `claim_generator`.
pub open spec fn spec_key_cg() -> Seq<u8> {
    seq![0x63u8, 0x6c, 0x61, 0x69, 0x6d, 0x5f, 0x67, 0x65, 0x6e, 0x65, 0x72, 0x61, 0x74, 0x6f,
        0x72]
}

/// The ASCII bytes of the key `name`.
pub open spec fn spec_key_name() -> Seq<u8> {
    seq![0x6eu8, 0x61, 0x6d, 0x65]
}

/// The ASCII bytes of the key `actions`.
pub open spec fn spec_key_actions() -> Seq<u8> {
    seq![0x61u8, 0x63, 0x74, 0x69, 0x6f, 0x6e, 0x73]
}

/// The ASCII bytes of the key `digitalSourceType`.
pub open spec fn spec_key_dst() -> Seq<u8> {
    seq![0x64u8, 0x69, 0x67, 0x69, 0x74, 0x61, 0x6c, 0x53, 0x6f, 0x75, 0x72, 0x63, 0x65, 0x54,
        0x79, 0x70, 0x65]
}

/// The ASCII bytes of the key `when`.
pub open spec fn spec_key_when() -> Seq<u8> {
    seq![0x77u8, 0x68, 0x65, 0x6e]
}

/// The ASCII bytes of the label prefix `c2pa.actions`.
pub open spec fn spec_label_actions_prefix() -> Seq<u8> {
    seq![0x63u8, 0x32, 0x70, 0x61, 0x2e, 0x61, 0x63, 0x74, 0x69, 0x6f, 0x6e, 0x73]
}

fn key_cgi() -> (r: Vec<u8>)
    ensures
        r@ == spec_key_cgi(),
{
    let mut v: Vec<u8> = Vec::new();
    v.push(0x63);
    v.push(0x6c);
    v.push(0x61);
    v.push(0x69);
    v.push(0x6d);
    v.push(0x5f);
    v.push(0x67);
    v.push(0x65);
    v.push(0x6e);
    v.push(0x65);
    v.push(0x72);
    v.push(0x61);
    v.push(0x74);
    v.push(0x6f);
    v.push(0x72);
    v.push(0x5f);
    v.push(0x69);
    v.push(0x6e);
    v.push(0x66);
    v.push(0x6f);
    proof {
        assert(v@ =~= spec_key_cgi());
    }
    v
}

fn key_cg() -> (r: Vec<u8>)
    ensures
        r@ == spec_key_cg(),
{
    let mut v: Vec<u8> = Vec::new();
    v.push(0x63);
    v.push(0x6c);
    v.push(0x61);
    v.push(0x69);
    v.push(0x6d);
    v.push(0x5f);
    v.push(0x67);
    v.push(0x65);
    v.push(0x6e);
    v.push(0x65);
    v.push(0x72);
    v.push(0x61);
    v.push(0x74);
    v.push(0x6f);
    v.push(0x72);
    proof {
        assert(v@ =~= spec_key_cg());
    }
    v
}

fn key_name() -> (r: Vec<u8>)
    ensures
        r@ == spec_key_name(),
{
    let mut v: Vec<u8> = Vec::new();
    v.push(0x6e);
    v.push(0x61);
    v.push(0x6d);
    v.push(0x65);
    proof {
        assert(v@ =~= spec_key_name());
    }
    v
}

fn key_actions() -> (r: Vec<u8>)
    ensures
        r@ == spec_key_actions(),
{
    let mut v: Vec<u8> = Vec::new();
    v.push(0x61);
    v.push(0x63);
    v.push(0x74);
    v.push(0x69);
    v.push(0x6f);
    v.push(0x6e);
    v.push(0x73);
    proof {
        assert(v@ =~= spec_key_actions());
    }
    v
}

fn key_dst() -> (r: Vec<u8>)
    ensures
        r@ == spec_key_dst(),
{
    let mut v: Vec<u8> = Vec::new();
    v.push(0x64);
    v.push(0x69);
    v.push(0x67);
    v.push(0x69);
    v.push(0x74);
    v.push(0x61);
    v.push(0x6c);
    v.push(0x53);
    v.push(0x6f);
    v.push(0x75);
    v.push(0x72);
    v.push(0x63);
    v.push(0x65);
    v.push(0x54);
    v.push(0x79);
    v.push(0x70);
    v.push(0x65);
    proof {
        assert(v@ =~= spec_key_dst());
    }
    v
}

fn key_when() -> (r: Vec<u8>)
    ensures
        r@ == spec_key_when(),
{
    let mut v: Vec<u8> = Vec::new();
    v.push(0x77);
    v.push(0x68);
    v.push(0x65);
    v.push(0x6e);
    proof {
        assert(v@ =~= spec_key_when());
    }
    v
}

fn label_actions_prefix() -> (r: Vec<u8>)
    ensures
        r@ == spec_label_actions_prefix(),
{
    let mut v: Vec<u8> = Vec::new();
    v.push(0x63);
    v.push(0x32);
    v.push(0x70);
    v.push(0x61);
    v.push(0x2e);
    v.push(0x61);
    v.push(0x63);
    v.push(0x74);
    v.push(0x69);
    v.push(0x6f);
    v.push(0x6e);
    v.push(0x73);
    proof {
        assert(v@ =~= spec_label_actions_prefix());
    }
    v
}

/// The well-formed text content of the item at `vpos`, if it is one.
pub open spec fn spec_text_value(d: Seq<u8>, vpos: int) -> Option<Seq<u8>> {
    match spec_cbor_head(d, vpos) {
        Some((maj, l, hl)) => if maj == 3 && l <= d.len() - (vpos + hl) && spec_valid_utf8(
            d.subrange(vpos + hl, vpos + hl + l),
        ) {
            Some(d.subrange(vpos + hl, vpos + hl + l))
        } else {
            None
        },
        None => None,
    }
}

fn text_value(d: &[u8], vpos: usize) -> (r: Option<Vec<u8>>)
    ensures
        match r {
            Some(v) => spec_text_value(d@, vpos as int) == Some(v@),
            None => spec_text_value(d@, vpos as int) is None,
        },
{
    let n = d.len();
    match cbor_head(d, vpos) {
        Some((maj, l, hl)) => {
            if maj == 3 && l <= (n - (vpos + hl)) as u64 {
                let content = sub_vec(d, vpos + hl, vpos + hl + l as usize);
                if is_valid_utf8(content.as_slice()) {
                    Some(content)
                } else {
                    None
                }
            } else {
                None
            }
        },
        None => None,
    }
}

/// The software agent of the claim: the `name` of the map under
/// `claim_generator_info` where present, else the text under
/// `claim_generator`, else empty.
pub open spec fn spec_claim_generator(d: Seq<u8>) -> Seq<u8> {
    let v2: Option<Seq<u8>> = match spec_map_value_text(d, 0, spec_key_cgi()) {
        Some(ipos) => match spec_map_value_text(d, ipos, spec_key_name()) {
            Some(npos) => spec_text_value(d, npos),
            None => None,
        },
        None => None,
    };
    match v2 {
        Some(t) => t,
        None => match spec_map_value_text(d, 0, spec_key_cg()) {
            Some(vpos) => match spec_text_value(d, vpos) {
                Some(t) => t,
                None => Seq::empty(),
            },
            None => Seq::empty(),
        },
    }
}

/// Extract the software agent name from C2PA claim CBOR.
pub fn extract_claim_generator(claim_cbor: &[u8]) -> (r: Vec<u8>)
    ensures
        r@ == spec_claim_generator(claim_cbor@),
{
    let cgi = key_cgi();
    let name = key_name();
    let v2: Option<Vec<u8>> = match map_value_text(claim_cbor, 0, &cgi) {
        Some(ipos) => match map_value_text(claim_cbor, ipos, &name) {
            Some(npos) => text_value(claim_cbor, npos),
            None => None,
        },
        None => None,
    };
    match v2 {
        Some(t) => t,
        None => {
            let cg = key_cg();
            match map_value_text(claim_cbor, 0, &cg) {
                Some(vpos) => match text_value(claim_cbor, vpos) {
                    Some(t) => t,
                    None => Vec::new(),
                },
                None => Vec::new(),
            }
        },
    }
}

/// The first non-empty text under `key` across `cnt` action maps from
/// `ipos`; empty when none carries one.
pub open spec fn spec_first_nonempty(d: Seq<u8>, ipos: int, cnt: int, key: Seq<u8>) -> Seq<u8>
    decreases cnt,
{
    if cnt <= 0 {
        Seq::empty()
    } else {
        match spec_cbor_skip(d, ipos) {
            None => Seq::empty(),
            Some(next) => {
                let val: Seq<u8> = match spec_map_value_text(d, ipos, key) {
                    Some(vp) => match spec_text_value(d, vp) {
                        Some(t) => t,
                        None => Seq::empty(),
                    },
                    None => Seq::empty(),
                };
                if val.len() > 0 {
                    val
                } else {
                    spec_first_nonempty(d, next, cnt - 1, key)
                }
            },
        }
    }
}

fn first_nonempty(d: &[u8], ipos: usize, cnt: u64, key: &Vec<u8>) -> (r: Vec<u8>)
    requires
        ipos <= d@.len(),
    ensures
        r@ == spec_first_nonempty(d@, ipos as int, cnt as int, key@),
    decreases cnt,
{
    if cnt == 0 {
        return Vec::new();
    }
    match cbor_skip(d, ipos) {
        None => Vec::new(),
        Some(next) => {
            let val: Vec<u8> = match map_value_text(d, ipos, key) {
                Some(vp) => match text_value(d, vp) {
                    Some(t) => t,
                    None => Vec::new(),
                },
                None => Vec::new(),
            };
            if val.len() > 0 {
                val
            } else {
                first_nonempty(d, next, cnt - 1, key)
            }
        },
    }
}

/// The `digitalSourceType` and `when` texts of one actions assertion
/// payload: a map whose `actions` array is scanned in order.
pub open spec fn spec_actions_in(d: Seq<u8>) -> Option<(Seq<u8>, Seq<u8>)> {
    match spec_map_value_text(d, 0, spec_key_actions()) {
        None => None,
        Some(apos) => match spec_cbor_head(d, apos) {
            Some((maj, cnt, hl)) => if maj == 4 {
                Some(
                    (
                        spec_first_nonempty(d, apos + hl, cnt, spec_key_dst()),
                        spec_first_nonempty(d, apos + hl, cnt, spec_key_when()),
                    ),
                )
            } else {
                None
            },
            None => None,
        },
    }
}

fn actions_in(d: &[u8]) -> (r: Option<(Vec<u8>, Vec<u8>)>)
    ensures
        match r {
            Some(p) => spec_actions_in(d@) == Some((p.0@, p.1@)),
            None => spec_actions_in(d@) is None,
        },
{
    let n = d.len();
    let actions = key_actions();
    match map_value_text(d, 0, &actions) {
        None => None,
        Some(apos) => match cbor_head(d, apos) {
            Some((maj, cnt, hl)) => {
                if maj == 4 {
                    let dst_key = key_dst();
                    let when_key = key_when();
                    let dst = first_nonempty(d, apos + hl, cnt, &dst_key);
                    let when = first_nonempty(d, apos + hl, cnt, &when_key);
                    Some((dst, when))
                } else {
                    None
                }
            },
            None => None,
        },
    }
}

/// The `digitalSourceType` and `when` of the first actions assertion
/// that yields a non-empty value, scanning from index `i`.
pub open spec fn spec_from_actions(asserts: Seq<GAssert>, i: int) -> (Seq<u8>, Seq<u8>)
    decreases asserts.len() - i,
{
    if i < 0 || i >= asserts.len() {
        (Seq::empty(), Seq::empty())
    } else {
        let a = asserts[i];
        if !spec_starts_with(a.label, spec_label_actions_prefix()) {
            spec_from_actions(asserts, i + 1)
        } else {
            match spec_actions_in(a.data) {
                None => spec_from_actions(asserts, i + 1),
                Some((dst, when)) => if dst.len() > 0 || when.len() > 0 {
                    (dst, when)
                } else {
                    spec_from_actions(asserts, i + 1)
                },
            }
        }
    }
}

fn from_actions_at(asserts: &Vec<AssertionBox>, i: usize) -> (r: (Vec<u8>, Vec<u8>))
    ensures
        r.0@ == spec_from_actions(asserts_view(asserts@), i as int).0,
        r.1@ == spec_from_actions(asserts_view(asserts@), i as int).1,
    decreases asserts@.len() - i,
{
    if i >= asserts.len() {
        return (Vec::new(), Vec::new());
    }
    let prefix = label_actions_prefix();
    if !range_eq(asserts[i].label.as_slice(), 0, prefix.as_slice()) {
        return from_actions_at(asserts, i + 1);
    }
    match actions_in(asserts[i].data.as_slice()) {
        None => from_actions_at(asserts, i + 1),
        Some((dst, when)) => if dst.len() > 0 || when.len() > 0 {
            (dst, when)
        } else {
            from_actions_at(asserts, i + 1)
        },
    }
}

/// Extract `digitalSourceType` and signing time from the C2PA actions
/// assertions, in assertion order.
pub fn extract_from_actions(assertion_boxes: &Vec<AssertionBox>) -> (r: (Vec<u8>, Vec<u8>))
    ensures
        r.0@ == spec_from_actions(asserts_view(assertion_boxes@), 0).0,
        r.1@ == spec_from_actions(asserts_view(assertion_boxes@), 0).1,
{
    from_actions_at(assertion_boxes, 0)
}

} // verus!
