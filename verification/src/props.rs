//! Flat provenance properties from a manifest-store document, held as
//! a JSON value tree of the library's own, and the Common Name pulled
//! from a distinguished-name string.

use vstd::prelude::*;
use crate::bytes::range_eq;
use crate::jumbf::spec_starts_with;

verus! {

/// A JSON value: the scalar kinds the projector reads, plus arrays
/// and objects as ordered field lists.
pub enum JsonValue {
    Null,
    Bool(bool),
    Num(i64),
    Text(Vec<u8>),
    Array(Vec<JsonValue>),
    Object(Vec<(Vec<u8>, JsonValue)>),
}

/// The text content of a value, where it is one.
pub open spec fn spec_as_text(v: JsonValue) -> Option<Seq<u8>> {
    match v {
        JsonValue::Text(t) => Some(t@),
        _ => None,
    }
}

/// The value under `key` among an object's fields from index `i` on.
pub open spec fn spec_fields_get(
    fields: Seq<(Vec<u8>, JsonValue)>,
    i: int,
    key: Seq<u8>,
) -> Option<JsonValue>
    decreases fields.len() - i,
{
    if i < 0 || i >= fields.len() {
        None
    } else if fields[i].0@ == key {
        Some(fields[i].1)
    } else {
        spec_fields_get(fields, i + 1, key)
    }
}

/// The value under `key` of an object; anything else holds none.
pub open spec fn spec_obj_get(v: JsonValue, key: Seq<u8>) -> Option<JsonValue> {
    match v {
        JsonValue::Object(fields) => spec_fields_get(fields@, 0, key),
        _ => None,
    }
}

fn fields_get<'a>(fields: &'a Vec<(Vec<u8>, JsonValue)>, i: usize, key: &Vec<u8>) -> (r: Option<
    &'a JsonValue,
>)
    ensures
        match r {
            Some(v) => spec_fields_get(fields@, i as int, key@) == Some(*v),
            None => spec_fields_get(fields@, i as int, key@) is None,
        },
    decreases fields@.len() - i,
{
    if i >= fields.len() {
        return None;
    }
    if crate::pipeline::vec_eq(&fields[i].0, key) {
        Some(&fields[i].1)
    } else {
        fields_get(fields, i + 1, key)
    }
}

/// Look up `key` in an object value.
pub fn obj_get<'a>(v: &'a JsonValue, key: &Vec<u8>) -> (r: Option<&'a JsonValue>)
    ensures
        match r {
            Some(x) => spec_obj_get(*v, key@) == Some(*x),
            None => spec_obj_get(*v, key@) is None,
        },
{
    match v {
        JsonValue::Object(fields) => fields_get(fields, 0, key),
        _ => None,
    }
}

/// The text under `key` of an object, where present.
pub open spec fn spec_get_text(v: JsonValue, key: Seq<u8>) -> Option<Seq<u8>> {
    match spec_obj_get(v, key) {
        Some(x) => spec_as_text(x),
        None => None,
    }
}

fn get_text(v: &JsonValue, key: &Vec<u8>) -> (r: Option<Vec<u8>>)
    ensures
        match r {
            Some(t) => spec_get_text(*v, key@) == Some(t@),
            None => spec_get_text(*v, key@) is None,
        },
{
    match obj_get(v, key) {
        Some(x) => match x {
            JsonValue::Text(t) => Some(crate::bytes::vec_clone(t)),
            _ => None,
        },
        None => None,
    }
}

/// Whether a byte is ASCII whitespace as trimming sees it.
pub open spec fn spec_is_ws(b: u8) -> bool {
    b == 0x20 || b == 0x09 || b == 0x0A || b == 0x0D
}

/// The index of the first non-whitespace byte at or after `i`.
pub open spec fn spec_trim_start(s: Seq<u8>, i: int) -> int
    decreases s.len() - i,
{
    if i < 0 || i >= s.len() {
        s.len() as int
    } else if spec_is_ws(s[i]) {
        spec_trim_start(s, i + 1)
    } else {
        i
    }
}

/// One past the last non-whitespace byte at or before `j - 1`.
pub open spec fn spec_trim_end(s: Seq<u8>, j: int) -> int
    decreases j,
{
    if j <= 0 {
        0
    } else if j > s.len() {
        spec_trim_end(s, s.len() as int)
    } else if spec_is_ws(s[j - 1]) {
        spec_trim_end(s, j - 1)
    } else {
        j
    }
}

proof fn lemma_trim_end_le(s: Seq<u8>, j: int)
    requires
        0 <= j,
    ensures
        0 <= spec_trim_end(s, j) <= j,
    decreases j + 1, j,
{
    if j == 0 {
    } else if j > s.len() {
        lemma_trim_end_le(s, s.len() as int);
    } else if spec_is_ws(s[j - 1]) {
        lemma_trim_end_le(s, j - 1);
    }
}

/// The bytes with leading and trailing whitespace removed.
pub open spec fn spec_trim(s: Seq<u8>) -> Seq<u8> {
    let a = spec_trim_start(s, 0);
    let b = spec_trim_end(s, s.len() as int);
    if a <= b {
        s.subrange(a, b)
    } else {
        Seq::empty()
    }
}

fn trim_bytes(s: &[u8]) -> (r: Vec<u8>)
    ensures
        r@ == spec_trim(s@),
{
    let n = s.len();
    let mut a: usize = 0;
    while a < n && (s[a] == 0x20 || s[a] == 0x09 || s[a] == 0x0A || s[a] == 0x0D)
        invariant
            a <= n == s@.len(),
            spec_trim_start(s@, 0) == spec_trim_start(s@, a as int),
        decreases n - a,
    {
        a = a + 1;
    }
    proof {
        assert(spec_trim_start(s@, a as int) == a);
    }
    let mut b: usize = n;
    while b > a && (s[b - 1] == 0x20 || s[b - 1] == 0x09 || s[b - 1] == 0x0A || s[b - 1] == 0x0D)
        invariant
            a <= b <= n == s@.len(),
            spec_trim_start(s@, 0) == a as int,
            spec_trim_end(s@, n as int) == spec_trim_end(s@, b as int),
        decreases b,
    {
        b = b - 1;
    }
    if b <= a {
        proof {
            lemma_trim_end_le(s@, b as int);
            assert(spec_trim_end(s@, n as int) <= a);
            if spec_trim_end(s@, n as int) < a {
                assert(spec_trim(s@) =~= Seq::<u8>::empty());
            } else {
                assert(spec_trim(s@) =~= s@.subrange(a as int, a as int));
                assert(spec_trim(s@) =~= Seq::<u8>::empty());
            }
        }
        let r: Vec<u8> = Vec::new();
        proof {
            assert(r@ =~= spec_trim(s@));
        }
        r
    } else {
        proof {
            assert(spec_trim_end(s@, b as int) == b);
        }
        crate::bytes::sub_vec(s, a, b)
    }
}

/// The ASCII bytes of the attribute prefix `CN=`.
pub open spec fn spec_cn_prefix() -> Seq<u8> {
    seq![0x43u8, 0x4E, 0x3D]
}

fn cn_prefix() -> (r: Vec<u8>)
    ensures
        r@ == spec_cn_prefix(),
{
    let mut v: Vec<u8> = Vec::new();
    v.push(0x43);
    v.push(0x4E);
    v.push(0x3D);
    proof {
        assert(v@ =~= spec_cn_prefix());
    }
    v
}

/// The index of the first comma at or after `i`.
pub open spec fn spec_find_comma(s: Seq<u8>, i: int) -> int
    decreases s.len() - i,
{
    if i < 0 || i >= s.len() {
        s.len() as int
    } else if s[i] == 0x2C {
        i
    } else {
        spec_find_comma(s, i + 1)
    }
}

fn find_comma(s: &[u8], i: usize) -> (r: usize)
    requires
        i <= s@.len(),
    ensures
        r as int == spec_find_comma(s@, i as int),
        i <= r <= s@.len(),
    decreases s@.len() - i,
{
    if i >= s.len() {
        return s.len();
    }
    if s[i] == 0x2C {
        i
    } else {
        find_comma(s, i + 1)
    }
}

/// The Common Name of a comma-separated distinguished-name string:
/// the trimmed segment beginning with `CN=`, without the prefix.
pub open spec fn spec_extract_cn_from(s: Seq<u8>, pos: int) -> Option<Seq<u8>>
    decreases s.len() - pos,
    via spec_extract_cn_from_dec
{
    if pos < 0 || pos > s.len() {
        None
    } else {
        let c = spec_find_comma(s, pos);
        let seg = spec_trim(s.subrange(pos, c));
        if spec_starts_with(seg, spec_cn_prefix()) {
            Some(seg.skip(3))
        } else if c >= s.len() {
            None
        } else {
            spec_extract_cn_from(s, c + 1)
        }
    }
}

proof fn lemma_find_comma_ge(s: Seq<u8>, i: int)
    ensures
        spec_find_comma(s, i) <= s.len(),
        i <= spec_find_comma(s, i) || i < 0 || i >= s.len(),
    decreases s.len() - i,
{
    if 0 <= i < s.len() && s[i] != 0x2C {
        lemma_find_comma_ge(s, i + 1);
    }
}

#[via_fn]
proof fn spec_extract_cn_from_dec(s: Seq<u8>, pos: int) {
    if !(pos < 0 || pos > s.len()) {
        lemma_find_comma_ge(s, pos);
    }
}

/// Extract `CN` from an X.509 distinguished-name string such as
/// `CN=Example, O=Org`.
pub fn extract_cn(issuer: &[u8]) -> (r: Option<Vec<u8>>)
    ensures
        match r {
            Some(v) => spec_extract_cn_from(issuer@, 0) == Some(v@),
            None => spec_extract_cn_from(issuer@, 0) is None,
        },
{
    extract_cn_from(issuer, 0)
}

fn extract_cn_from(s: &[u8], pos: usize) -> (r: Option<Vec<u8>>)
    requires
        pos <= s@.len(),
    ensures
        match r {
            Some(v) => spec_extract_cn_from(s@, pos as int) == Some(v@),
            None => spec_extract_cn_from(s@, pos as int) is None,
        },
    decreases s@.len() - pos,
{
    let c = find_comma(s, pos);
    let seg_raw = crate::bytes::sub_vec(s, pos, c);
    let seg = trim_bytes(seg_raw.as_slice());
    let prefix = cn_prefix();
    if range_eq(seg.as_slice(), 0, prefix.as_slice()) {
        let rest = crate::bytes::sub_vec(seg.as_slice(), 3, seg.len());
        proof {
            assert(rest@ =~= seg@.skip(3));
        }
        Some(rest)
    } else if c >= s.len() {
        None
    } else {
        extract_cn_from(s, c + 1)
    }
}


/// The ASCII bytes of `active_manifest`.
pub open spec fn spec_k_active_manifest() -> Seq<u8> {
    seq![0x61u8, 0x63, 0x74, 0x69, 0x76, 0x65, 0x5f, 0x6d, 0x61, 0x6e, 0x69, 0x66, 0x65, 0x73, 0x74]
}

fn k_active_manifest() -> (r: Vec<u8>)
    ensures
        r@ == spec_k_active_manifest(),
{
    let v: Vec<u8> = vec![0x61, 0x63, 0x74, 0x69, 0x76, 0x65, 0x5f, 0x6d, 0x61, 0x6e, 0x69, 0x66, 0x65, 0x73, 0x74];
    proof {
        assert(v@ =~= spec_k_active_manifest());
    }
    v
}

/// The ASCII bytes of `manifests`.
pub open spec fn spec_k_manifests() -> Seq<u8> {
    seq![0x6du8, 0x61, 0x6e, 0x69, 0x66, 0x65, 0x73, 0x74, 0x73]
}

fn k_manifests() -> (r: Vec<u8>)
    ensures
        r@ == spec_k_manifests(),
{
    let v: Vec<u8> = vec![0x6d, 0x61, 0x6e, 0x69, 0x66, 0x65, 0x73, 0x74, 0x73];
    proof {
        assert(v@ =~= spec_k_manifests());
    }
    v
}

/// The ASCII bytes of `title`.
pub open spec fn spec_k_title() -> Seq<u8> {
    seq![0x74u8, 0x69, 0x74, 0x6c, 0x65]
}

fn k_title() -> (r: Vec<u8>)
    ensures
        r@ == spec_k_title(),
{
    let v: Vec<u8> = vec![0x74, 0x69, 0x74, 0x6c, 0x65];
    proof {
        assert(v@ =~= spec_k_title());
    }
    v
}

/// The ASCII bytes of `format`.
pub open spec fn spec_k_format() -> Seq<u8> {
    seq![0x66u8, 0x6f, 0x72, 0x6d, 0x61, 0x74]
}

fn k_format() -> (r: Vec<u8>)
    ensures
        r@ == spec_k_format(),
{
    let v: Vec<u8> = vec![0x66, 0x6f, 0x72, 0x6d, 0x61, 0x74];
    proof {
        assert(v@ =~= spec_k_format());
    }
    v
}

/// The ASCII bytes of `claim_generator`.
pub open spec fn spec_k_claim_generator() -> Seq<u8> {
    seq![0x63u8, 0x6c, 0x61, 0x69, 0x6d, 0x5f, 0x67, 0x65, 0x6e, 0x65, 0x72, 0x61, 0x74, 0x6f, 0x72]
}

fn k_claim_generator() -> (r: Vec<u8>)
    ensures
        r@ == spec_k_claim_generator(),
{
    let v: Vec<u8> = vec![0x63, 0x6c, 0x61, 0x69, 0x6d, 0x5f, 0x67, 0x65, 0x6e, 0x65, 0x72, 0x61, 0x74, 0x6f, 0x72];
    proof {
        assert(v@ =~= spec_k_claim_generator());
    }
    v
}

/// The ASCII bytes of `signature_info`.
pub open spec fn spec_k_signature_info() -> Seq<u8> {
    seq![0x73u8, 0x69, 0x67, 0x6e, 0x61, 0x74, 0x75, 0x72, 0x65, 0x5f, 0x69, 0x6e, 0x66, 0x6f]
}

fn k_signature_info() -> (r: Vec<u8>)
    ensures
        r@ == spec_k_signature_info(),
{
    let v: Vec<u8> = vec![0x73, 0x69, 0x67, 0x6e, 0x61, 0x74, 0x75, 0x72, 0x65, 0x5f, 0x69, 0x6e, 0x66, 0x6f];
    proof {
        assert(v@ =~= spec_k_signature_info());
    }
    v
}

/// The ASCII bytes of `issuer`.
pub open spec fn spec_k_issuer() -> Seq<u8> {
    seq![0x69u8, 0x73, 0x73, 0x75, 0x65, 0x72]
}

fn k_issuer() -> (r: Vec<u8>)
    ensures
        r@ == spec_k_issuer(),
{
    let v: Vec<u8> = vec![0x69, 0x73, 0x73, 0x75, 0x65, 0x72];
    proof {
        assert(v@ =~= spec_k_issuer());
    }
    v
}

/// The ASCII bytes of `common_name`.
pub open spec fn spec_k_common_name() -> Seq<u8> {
    seq![0x63u8, 0x6f, 0x6d, 0x6d, 0x6f, 0x6e, 0x5f, 0x6e, 0x61, 0x6d, 0x65]
}

fn k_common_name() -> (r: Vec<u8>)
    ensures
        r@ == spec_k_common_name(),
{
    let v: Vec<u8> = vec![0x63, 0x6f, 0x6d, 0x6d, 0x6f, 0x6e, 0x5f, 0x6e, 0x61, 0x6d, 0x65];
    proof {
        assert(v@ =~= spec_k_common_name());
    }
    v
}

/// The ASCII bytes of `time`.
pub open spec fn spec_k_time() -> Seq<u8> {
    seq![0x74u8, 0x69, 0x6d, 0x65]
}

fn k_time() -> (r: Vec<u8>)
    ensures
        r@ == spec_k_time(),
{
    let v: Vec<u8> = vec![0x74, 0x69, 0x6d, 0x65];
    proof {
        assert(v@ =~= spec_k_time());
    }
    v
}

/// The ASCII bytes of `alg`.
pub open spec fn spec_k_alg() -> Seq<u8> {
    seq![0x61u8, 0x6c, 0x67]
}

fn k_alg() -> (r: Vec<u8>)
    ensures
        r@ == spec_k_alg(),
{
    let v: Vec<u8> = vec![0x61, 0x6c, 0x67];
    proof {
        assert(v@ =~= spec_k_alg());
    }
    v
}

/// The ASCII bytes of `assertions`.
pub open spec fn spec_k_assertions() -> Seq<u8> {
    seq![0x61u8, 0x73, 0x73, 0x65, 0x72, 0x74, 0x69, 0x6f, 0x6e, 0x73]
}

fn k_assertions() -> (r: Vec<u8>)
    ensures
        r@ == spec_k_assertions(),
{
    let v: Vec<u8> = vec![0x61, 0x73, 0x73, 0x65, 0x72, 0x74, 0x69, 0x6f, 0x6e, 0x73];
    proof {
        assert(v@ =~= spec_k_assertions());
    }
    v
}

/// The ASCII bytes of `label`.
pub open spec fn spec_k_label() -> Seq<u8> {
    seq![0x6cu8, 0x61, 0x62, 0x65, 0x6c]
}

fn k_label() -> (r: Vec<u8>)
    ensures
        r@ == spec_k_label(),
{
    let v: Vec<u8> = vec![0x6c, 0x61, 0x62, 0x65, 0x6c];
    proof {
        assert(v@ =~= spec_k_label());
    }
    v
}

/// The ASCII bytes of `data`.
pub open spec fn spec_k_data() -> Seq<u8> {
    seq![0x64u8, 0x61, 0x74, 0x61]
}

fn k_data() -> (r: Vec<u8>)
    ensures
        r@ == spec_k_data(),
{
    let v: Vec<u8> = vec![0x64, 0x61, 0x74, 0x61];
    proof {
        assert(v@ =~= spec_k_data());
    }
    v
}

/// The ASCII bytes of `digitalSourceType`.
pub open spec fn spec_k_dst() -> Seq<u8> {
    seq![0x64u8, 0x69, 0x67, 0x69, 0x74, 0x61, 0x6c, 0x53, 0x6f, 0x75, 0x72, 0x63, 0x65, 0x54, 0x79, 0x70, 0x65]
}

fn k_dst() -> (r: Vec<u8>)
    ensures
        r@ == spec_k_dst(),
{
    let v: Vec<u8> = vec![0x64, 0x69, 0x67, 0x69, 0x74, 0x61, 0x6c, 0x53, 0x6f, 0x75, 0x72, 0x63, 0x65, 0x54, 0x79, 0x70, 0x65];
    proof {
        assert(v@ =~= spec_k_dst());
    }
    v
}

/// The ASCII bytes of `softwareAgent`.
pub open spec fn spec_k_software_agent() -> Seq<u8> {
    seq![0x73u8, 0x6f, 0x66, 0x74, 0x77, 0x61, 0x72, 0x65, 0x41, 0x67, 0x65, 0x6e, 0x74]
}

fn k_software_agent() -> (r: Vec<u8>)
    ensures
        r@ == spec_k_software_agent(),
{
    let v: Vec<u8> = vec![0x73, 0x6f, 0x66, 0x74, 0x77, 0x61, 0x72, 0x65, 0x41, 0x67, 0x65, 0x6e, 0x74];
    proof {
        assert(v@ =~= spec_k_software_agent());
    }
    v
}

/// The ASCII bytes of `name`.
pub open spec fn spec_k_name() -> Seq<u8> {
    seq![0x6eu8, 0x61, 0x6d, 0x65]
}

fn k_name() -> (r: Vec<u8>)
    ensures
        r@ == spec_k_name(),
{
    let v: Vec<u8> = vec![0x6e, 0x61, 0x6d, 0x65];
    proof {
        assert(v@ =~= spec_k_name());
    }
    v
}

/// The ASCII bytes of `actions`.
pub open spec fn spec_k_actions() -> Seq<u8> {
    seq![0x61u8, 0x63, 0x74, 0x69, 0x6f, 0x6e, 0x73]
}

fn k_actions() -> (r: Vec<u8>)
    ensures
        r@ == spec_k_actions(),
{
    let v: Vec<u8> = vec![0x61, 0x63, 0x74, 0x69, 0x6f, 0x6e, 0x73];
    proof {
        assert(v@ =~= spec_k_actions());
    }
    v
}

/// The ASCII bytes of `parameters`.
pub open spec fn spec_k_parameters() -> Seq<u8> {
    seq![0x70u8, 0x61, 0x72, 0x61, 0x6d, 0x65, 0x74, 0x65, 0x72, 0x73]
}

fn k_parameters() -> (r: Vec<u8>)
    ensures
        r@ == spec_k_parameters(),
{
    let v: Vec<u8> = vec![0x70, 0x61, 0x72, 0x61, 0x6d, 0x65, 0x74, 0x65, 0x72, 0x73];
    proof {
        assert(v@ =~= spec_k_parameters());
    }
    v
}

/// The ASCII bytes of `com.adobe.digitalSourceType`.
pub open spec fn spec_k_adobe_dst() -> Seq<u8> {
    seq![0x63u8, 0x6f, 0x6d, 0x2e, 0x61, 0x64, 0x6f, 0x62, 0x65, 0x2e, 0x64, 0x69, 0x67, 0x69, 0x74, 0x61, 0x6c, 0x53, 0x6f, 0x75, 0x72, 0x63, 0x65, 0x54, 0x79, 0x70, 0x65]
}

fn k_adobe_dst() -> (r: Vec<u8>)
    ensures
        r@ == spec_k_adobe_dst(),
{
    let v: Vec<u8> = vec![0x63, 0x6f, 0x6d, 0x2e, 0x61, 0x64, 0x6f, 0x62, 0x65, 0x2e, 0x64, 0x69, 0x67, 0x69, 0x74, 0x61, 0x6c, 0x53, 0x6f, 0x75, 0x72, 0x63, 0x65, 0x54, 0x79, 0x70, 0x65];
    proof {
        assert(v@ =~= spec_k_adobe_dst());
    }
    v
}

/// The ASCII bytes of `action`.
pub open spec fn spec_k_action() -> Seq<u8> {
    seq![0x61u8, 0x63, 0x74, 0x69, 0x6f, 0x6e]
}

fn k_action() -> (r: Vec<u8>)
    ensures
        r@ == spec_k_action(),
{
    let v: Vec<u8> = vec![0x61, 0x63, 0x74, 0x69, 0x6f, 0x6e];
    proof {
        assert(v@ =~= spec_k_action());
    }
    v
}

/// The ASCII bytes of `c2pa.created`.
pub open spec fn spec_k_created() -> Seq<u8> {
    seq![0x63u8, 0x32, 0x70, 0x61, 0x2e, 0x63, 0x72, 0x65, 0x61, 0x74, 0x65, 0x64]
}

fn k_created() -> (r: Vec<u8>)
    ensures
        r@ == spec_k_created(),
{
    let v: Vec<u8> = vec![0x63, 0x32, 0x70, 0x61, 0x2e, 0x63, 0x72, 0x65, 0x61, 0x74, 0x65, 0x64];
    proof {
        assert(v@ =~= spec_k_created());
    }
    v
}

/// The ASCII bytes of `stds.schema-org.CreativeWork`.
pub open spec fn spec_k_creative_work() -> Seq<u8> {
    seq![0x73u8, 0x74, 0x64, 0x73, 0x2e, 0x73, 0x63, 0x68, 0x65, 0x6d, 0x61, 0x2d, 0x6f, 0x72, 0x67, 0x2e, 0x43, 0x72, 0x65, 0x61, 0x74, 0x69, 0x76, 0x65, 0x57, 0x6f, 0x72, 0x6b]
}

fn k_creative_work() -> (r: Vec<u8>)
    ensures
        r@ == spec_k_creative_work(),
{
    let v: Vec<u8> = vec![0x73, 0x74, 0x64, 0x73, 0x2e, 0x73, 0x63, 0x68, 0x65, 0x6d, 0x61, 0x2d, 0x6f, 0x72, 0x67, 0x2e, 0x43, 0x72, 0x65, 0x61, 0x74, 0x69, 0x76, 0x65, 0x57, 0x6f, 0x72, 0x6b];
    proof {
        assert(v@ =~= spec_k_creative_work());
    }
    v
}

/// The ASCII bytes of `c2pa.actions`.
pub open spec fn spec_k_actions_prefix() -> Seq<u8> {
    seq![0x63u8, 0x32, 0x70, 0x61, 0x2e, 0x61, 0x63, 0x74, 0x69, 0x6f, 0x6e, 0x73]
}

fn k_actions_prefix() -> (r: Vec<u8>)
    ensures
        r@ == spec_k_actions_prefix(),
{
    let v: Vec<u8> = vec![0x63, 0x32, 0x70, 0x61, 0x2e, 0x61, 0x63, 0x74, 0x69, 0x6f, 0x6e, 0x73];
    proof {
        assert(v@ =~= spec_k_actions_prefix());
    }
    v
}

/// The ghost image of the flat properties.
pub ghost struct GProps {
    pub title: Option<Seq<u8>>,
    pub format: Option<Seq<u8>>,
    pub digital_source_type: Option<Seq<u8>>,
    pub claim_generator: Option<Seq<u8>>,
    pub software_agent: Option<Seq<u8>>,
    pub issuer: Option<Seq<u8>>,
    pub common_name: Option<Seq<u8>>,
    pub signing_time: Option<Seq<u8>>,
    pub sig_algorithm: Option<Seq<u8>>,
}

/// The flat provenance properties of the active manifest.
pub struct Props {
    pub title: Option<Vec<u8>>,
    pub format: Option<Vec<u8>>,
    pub digital_source_type: Option<Vec<u8>>,
    pub claim_generator: Option<Vec<u8>>,
    pub software_agent: Option<Vec<u8>>,
    pub issuer: Option<Vec<u8>>,
    pub common_name: Option<Vec<u8>>,
    pub signing_time: Option<Vec<u8>>,
    pub sig_algorithm: Option<Vec<u8>>,
}

/// The ghost image of an optional byte vector.
pub open spec fn opt_view(o: Option<Vec<u8>>) -> Option<Seq<u8>> {
    match o {
        Some(v) => Some(v@),
        None => None,
    }
}

impl Props {
    pub open spec fn view(&self) -> GProps {
        GProps {
            title: opt_view(self.title),
            format: opt_view(self.format),
            digital_source_type: opt_view(self.digital_source_type),
            claim_generator: opt_view(self.claim_generator),
            software_agent: opt_view(self.software_agent),
            issuer: opt_view(self.issuer),
            common_name: opt_view(self.common_name),
            signing_time: opt_view(self.signing_time),
            sig_algorithm: opt_view(self.sig_algorithm),
        }
    }
}

/// The software agent of one action: its `softwareAgent`, a text or
/// an object with a `name`.
pub open spec fn spec_sw_of_action(act: JsonValue) -> Option<Seq<u8>> {
    match spec_obj_get(act, spec_k_software_agent()) {
        None => None,
        Some(v) => match spec_as_text(v) {
            Some(t) => Some(t),
            None => spec_get_text(v, spec_k_name()),
        },
    }
}

fn sw_of_action(act: &JsonValue) -> (r: Option<Vec<u8>>)
    ensures
        opt_view(r) == spec_sw_of_action(*act),
{
    let key = k_software_agent();
    match obj_get(act, &key) {
        None => None,
        Some(v) => match v {
            JsonValue::Text(t) => Some(crate::bytes::vec_clone(t)),
            _ => {
                let name = k_name();
                get_text(v, &name)
            },
        },
    }
}

/// The action-array scan: `softwareAgent`, `digitalSourceType`, and
/// the vendor parameter each fill their slot where it is still empty.
pub open spec fn spec_scan_actions(
    arr: Seq<JsonValue>,
    i: int,
    dst: Option<Seq<u8>>,
    sw: Option<Seq<u8>>,
) -> (Option<Seq<u8>>, Option<Seq<u8>>)
    decreases arr.len() - i,
{
    if i < 0 || i >= arr.len() {
        (dst, sw)
    } else {
        let act = arr[i];
        let sw1 = if sw is None {
            spec_sw_of_action(act)
        } else {
            sw
        };
        let dst1 = if dst is None {
            spec_get_text(act, spec_k_dst())
        } else {
            dst
        };
        let dst2 = if dst1 is None {
            match spec_obj_get(act, spec_k_parameters()) {
                Some(p) => spec_get_text(p, spec_k_adobe_dst()),
                None => None,
            }
        } else {
            dst1
        };
        spec_scan_actions(arr, i + 1, dst2, sw1)
    }
}

fn scan_actions(arr: &Vec<JsonValue>, i: usize, dst: Option<Vec<u8>>, sw: Option<Vec<u8>>) -> (r: (
    Option<Vec<u8>>,
    Option<Vec<u8>>,
))
    ensures
        (opt_view(r.0), opt_view(r.1)) == spec_scan_actions(arr@, i as int, opt_view(dst),
            opt_view(sw)),
    decreases arr@.len() - i,
{
    if i >= arr.len() {
        return (dst, sw);
    }
    let act = &arr[i];
    let sw1 = if sw.is_none() {
        sw_of_action(act)
    } else {
        sw
    };
    let dst1 = if dst.is_none() {
        let key = k_dst();
        get_text(act, &key)
    } else {
        dst
    };
    let dst2 = if dst1.is_none() {
        let pkey = k_parameters();
        match obj_get(act, &pkey) {
            Some(p) => {
                let akey = k_adobe_dst();
                get_text(p, &akey)
            },
            None => None,
        }
    } else {
        dst1
    };
    scan_actions(arr, i + 1, dst2, sw1)
}

/// The assertion scan of the active manifest: a CreativeWork
/// assertion assigns the source type outright; an actions assertion
/// scans its array.
pub open spec fn spec_scan_assertions(
    arr: Seq<JsonValue>,
    i: int,
    dst: Option<Seq<u8>>,
    sw: Option<Seq<u8>>,
) -> (Option<Seq<u8>>, Option<Seq<u8>>)
    decreases arr.len() - i,
{
    if i < 0 || i >= arr.len() {
        (dst, sw)
    } else {
        let a = arr[i];
        let label = match spec_get_text(a, spec_k_label()) {
            Some(t) => t,
            None => Seq::empty(),
        };
        let data = spec_obj_get(a, spec_k_data());
        let next: (Option<Seq<u8>>, Option<Seq<u8>>) = if label == spec_k_creative_work() {
            match data {
                Some(d) => (spec_get_text(d, spec_k_dst()), sw),
                None => (dst, sw),
            }
        } else if spec_starts_with(label, spec_k_actions_prefix()) {
            match data {
                Some(d) => match spec_obj_get(d, spec_k_actions()) {
                    Some(JsonValue::Array(ar)) => spec_scan_actions(ar@, 0, dst, sw),
                    _ => (dst, sw),
                },
                None => (dst, sw),
            }
        } else {
            (dst, sw)
        };
        spec_scan_assertions(arr, i + 1, next.0, next.1)
    }
}

fn scan_assertions(arr: &Vec<JsonValue>, i: usize, dst: Option<Vec<u8>>, sw: Option<Vec<u8>>) -> (r:
    (Option<Vec<u8>>, Option<Vec<u8>>))
    ensures
        (opt_view(r.0), opt_view(r.1)) == spec_scan_assertions(arr@, i as int, opt_view(dst),
            opt_view(sw)),
    decreases arr@.len() - i,
{
    if i >= arr.len() {
        return (dst, sw);
    }
    let a = &arr[i];
    let lkey = k_label();
    let label = match get_text(a, &lkey) {
        Some(t) => t,
        None => Vec::new(),
    };
    let dkey = k_data();
    let cw = k_creative_work();
    let apfx = k_actions_prefix();
    let is_cw = crate::pipeline::vec_eq(&label, &cw);
    let is_act = crate::bytes::range_eq(label.as_slice(), 0, apfx.as_slice());
    let next: (Option<Vec<u8>>, Option<Vec<u8>>) = if is_cw {
        match obj_get(a, &dkey) {
            Some(d) => {
                let dstk = k_dst();
                (get_text(d, &dstk), sw)
            },
            None => (dst, sw),
        }
    } else if is_act {
        match obj_get(a, &dkey) {
            Some(d) => {
                let akey = k_actions();
                match obj_get(d, &akey) {
                    Some(v) => match v {
                        JsonValue::Array(ar) => scan_actions(ar, 0, dst, sw),
                        _ => (dst, sw),
                    },
                    None => (dst, sw),
                }
            },
            None => (dst, sw),
        }
    } else {
        (dst, sw)
    };
    scan_assertions(arr, i + 1, next.0, next.1)
}

/// The fallback action scan over an ingredient manifest: only
/// `c2pa.created` actions contribute.
pub open spec fn spec_scan_fb_actions(
    arr: Seq<JsonValue>,
    i: int,
    dst: Option<Seq<u8>>,
    sw: Option<Seq<u8>>,
) -> (Option<Seq<u8>>, Option<Seq<u8>>)
    decreases arr.len() - i,
{
    if i < 0 || i >= arr.len() {
        (dst, sw)
    } else {
        let act = arr[i];
        if spec_get_text(act, spec_k_action()) != Some(spec_k_created()) {
            spec_scan_fb_actions(arr, i + 1, dst, sw)
        } else {
            let dst1 = if dst is None {
                spec_get_text(act, spec_k_dst())
            } else {
                dst
            };
            let sw1 = if sw is None {
                spec_sw_of_action(act)
            } else {
                sw
            };
            spec_scan_fb_actions(arr, i + 1, dst1, sw1)
        }
    }
}

fn scan_fb_actions(arr: &Vec<JsonValue>, i: usize, dst: Option<Vec<u8>>, sw: Option<Vec<u8>>) -> (r:
    (Option<Vec<u8>>, Option<Vec<u8>>))
    ensures
        (opt_view(r.0), opt_view(r.1)) == spec_scan_fb_actions(arr@, i as int, opt_view(dst),
            opt_view(sw)),
    decreases arr@.len() - i,
{
    if i >= arr.len() {
        return (dst, sw);
    }
    let act = &arr[i];
    let akey = k_action();
    let created = k_created();
    let is_created = match get_text(act, &akey) {
        Some(t) => crate::pipeline::vec_eq(&t, &created),
        None => false,
    };
    if !is_created {
        scan_fb_actions(arr, i + 1, dst, sw)
    } else {
        let dst1 = if dst.is_none() {
            let dstk = k_dst();
            get_text(act, &dstk)
        } else {
            dst
        };
        let sw1 = if sw.is_none() {
            sw_of_action(act)
        } else {
            sw
        };
        scan_fb_actions(arr, i + 1, dst1, sw1)
    }
}

/// The fallback assertion scan: only actions assertions are read.
pub open spec fn spec_scan_fb_asserts(
    arr: Seq<JsonValue>,
    i: int,
    dst: Option<Seq<u8>>,
    sw: Option<Seq<u8>>,
) -> (Option<Seq<u8>>, Option<Seq<u8>>)
    decreases arr.len() - i,
{
    if i < 0 || i >= arr.len() {
        (dst, sw)
    } else {
        let a = arr[i];
        let label = match spec_get_text(a, spec_k_label()) {
            Some(t) => t,
            None => Seq::empty(),
        };
        let next: (Option<Seq<u8>>, Option<Seq<u8>>) = if !spec_starts_with(
            label,
            spec_k_actions_prefix(),
        ) {
            (dst, sw)
        } else {
            match spec_obj_get(a, spec_k_data()) {
                Some(d) => match spec_obj_get(d, spec_k_actions()) {
                    Some(JsonValue::Array(ar)) => spec_scan_fb_actions(ar@, 0, dst, sw),
                    _ => (dst, sw),
                },
                None => (dst, sw),
            }
        };
        spec_scan_fb_asserts(arr, i + 1, next.0, next.1)
    }
}

fn scan_fb_asserts(arr: &Vec<JsonValue>, i: usize, dst: Option<Vec<u8>>, sw: Option<Vec<u8>>) -> (r:
    (Option<Vec<u8>>, Option<Vec<u8>>))
    ensures
        (opt_view(r.0), opt_view(r.1)) == spec_scan_fb_asserts(arr@, i as int, opt_view(dst),
            opt_view(sw)),
    decreases arr@.len() - i,
{
    if i >= arr.len() {
        return (dst, sw);
    }
    let a = &arr[i];
    let lkey = k_label();
    let label = match get_text(a, &lkey) {
        Some(t) => t,
        None => Vec::new(),
    };
    let apfx = k_actions_prefix();
    let next: (Option<Vec<u8>>, Option<Vec<u8>>) = if !crate::bytes::range_eq(
        label.as_slice(),
        0,
        apfx.as_slice(),
    ) {
        (dst, sw)
    } else {
        let dkey = k_data();
        match obj_get(a, &dkey) {
            Some(d) => {
                let akey = k_actions();
                match obj_get(d, &akey) {
                    Some(v) => match v {
                        JsonValue::Array(ar) => scan_fb_actions(ar, 0, dst, sw),
                        _ => (dst, sw),
                    },
                    None => (dst, sw),
                }
            },
            None => (dst, sw),
        }
    };
    scan_fb_asserts(arr, i + 1, next.0, next.1)
}

/// The fallback scan over every manifest of the store, in order.
pub open spec fn spec_scan_fb_manifests(
    fields: Seq<(Vec<u8>, JsonValue)>,
    i: int,
    dst: Option<Seq<u8>>,
    sw: Option<Seq<u8>>,
) -> (Option<Seq<u8>>, Option<Seq<u8>>)
    decreases fields.len() - i,
{
    if i < 0 || i >= fields.len() {
        (dst, sw)
    } else {
        let m = fields[i].1;
        let next: (Option<Seq<u8>>, Option<Seq<u8>>) = match spec_obj_get(
            m,
            spec_k_assertions(),
        ) {
            Some(JsonValue::Array(ar)) => spec_scan_fb_asserts(ar@, 0, dst, sw),
            _ => (dst, sw),
        };
        spec_scan_fb_manifests(fields, i + 1, next.0, next.1)
    }
}

fn scan_fb_manifests(
    fields: &Vec<(Vec<u8>, JsonValue)>,
    i: usize,
    dst: Option<Vec<u8>>,
    sw: Option<Vec<u8>>,
) -> (r: (Option<Vec<u8>>, Option<Vec<u8>>))
    ensures
        (opt_view(r.0), opt_view(r.1)) == spec_scan_fb_manifests(fields@, i as int, opt_view(dst),
            opt_view(sw)),
    decreases fields@.len() - i,
{
    if i >= fields.len() {
        return (dst, sw);
    }
    let m = &fields[i].1;
    let akey = k_assertions();
    let next: (Option<Vec<u8>>, Option<Vec<u8>>) = match obj_get(m, &akey) {
        Some(v) => match v {
            JsonValue::Array(ar) => scan_fb_asserts(ar, 0, dst, sw),
            _ => (dst, sw),
        },
        None => (dst, sw),
    };
    scan_fb_manifests(fields, i + 1, next.0, next.1)
}

/// The flat properties of a manifest-store document: the scalar
/// fields of the active manifest, the signature info with the Common
/// Name fallback, and the source type and software agent from the
/// assertion scans with the ingredient fallback.
pub open spec fn spec_extract_props(v: JsonValue) -> GProps {
    let empty_props = GProps {
        title: None,
        format: None,
        digital_source_type: None,
        claim_generator: None,
        software_agent: None,
        issuer: None,
        common_name: None,
        signing_time: None,
        sig_algorithm: None,
    };
    let active_id = match spec_get_text(v, spec_k_active_manifest()) {
        Some(t) => t,
        None => Seq::empty(),
    };
    let manifest = match spec_obj_get(v, spec_k_manifests()) {
        Some(ms) => spec_obj_get(ms, active_id),
        None => None,
    };
    match manifest {
        None => empty_props,
        Some(m) => {
            let sig = spec_obj_get(m, spec_k_signature_info());
            let issuer = match sig {
                Some(s) => spec_get_text(s, spec_k_issuer()),
                None => None,
            };
            let cn0 = match sig {
                Some(s) => spec_get_text(s, spec_k_common_name()),
                None => None,
            };
            let common_name = match cn0 {
                Some(t) => Some(t),
                None => match issuer {
                    Some(istr) => spec_extract_cn_from(istr, 0),
                    None => None,
                },
            };
            let scanned = match spec_obj_get(m, spec_k_assertions()) {
                Some(JsonValue::Array(ar)) => spec_scan_assertions(ar@, 0, None, None),
                _ => (None::<Seq<u8>>, None::<Seq<u8>>),
            };
            let full = if scanned.0 is None || scanned.1 is None {
                match spec_obj_get(v, spec_k_manifests()) {
                    Some(JsonValue::Object(fields)) => spec_scan_fb_manifests(fields@, 0,
                        scanned.0, scanned.1),
                    _ => scanned,
                }
            } else {
                scanned
            };
            GProps {
                title: spec_get_text(m, spec_k_title()),
                format: spec_get_text(m, spec_k_format()),
                digital_source_type: full.0,
                claim_generator: spec_get_text(m, spec_k_claim_generator()),
                software_agent: full.1,
                issuer: issuer,
                common_name: common_name,
                signing_time: match sig {
                    Some(s) => spec_get_text(s, spec_k_time()),
                    None => None,
                },
                sig_algorithm: match sig {
                    Some(s) => spec_get_text(s, spec_k_alg()),
                    None => None,
                },
            }
        },
    }
}

/// Pull flat provenance properties from the manifest-store document.
pub fn extract_props(json: &JsonValue) -> (r: Props)
    ensures
        r.view() == spec_extract_props(*json),
{
    let amkey = k_active_manifest();
    let active_id = match get_text(json, &amkey) {
        Some(t) => t,
        None => Vec::new(),
    };
    let mskey = k_manifests();
    let manifest: Option<&JsonValue> = match obj_get(json, &mskey) {
        Some(ms) => obj_get(ms, &active_id),
        None => None,
    };
    let m = match manifest {
        None => {
            return Props {
                title: None,
                format: None,
                digital_source_type: None,
                claim_generator: None,
                software_agent: None,
                issuer: None,
                common_name: None,
                signing_time: None,
                sig_algorithm: None,
            };
        },
        Some(m) => m,
    };
    let sikey = k_signature_info();
    let sig = obj_get(m, &sikey);
    let ikey = k_issuer();
    let issuer = match sig {
        Some(s) => get_text(s, &ikey),
        None => None,
    };
    let cnkey = k_common_name();
    let cn0 = match sig {
        Some(s) => get_text(s, &cnkey),
        None => None,
    };
    let common_name = match cn0 {
        Some(t) => Some(t),
        None => match &issuer {
            Some(istr) => extract_cn(istr.as_slice()),
            None => None,
        },
    };
    let askey = k_assertions();
    let scanned: (Option<Vec<u8>>, Option<Vec<u8>>) = match obj_get(m, &askey) {
        Some(v) => match v {
            JsonValue::Array(ar) => scan_assertions(ar, 0, None, None),
            _ => (None, None),
        },
        None => (None, None),
    };
    let full: (Option<Vec<u8>>, Option<Vec<u8>>) = if scanned.0.is_none() || scanned.1.is_none() {
        match obj_get(json, &mskey) {
            Some(v) => match v {
                JsonValue::Object(fields) => scan_fb_manifests(fields, 0, scanned.0, scanned.1),
                _ => scanned,
            },
            None => scanned,
        }
    } else {
        scanned
    };
    let tkey = k_title();
    let fkey = k_format();
    let cgkey = k_claim_generator();
    let timekey = k_time();
    let algkey = k_alg();
    Props {
        title: get_text(m, &tkey),
        format: get_text(m, &fkey),
        digital_source_type: full.0,
        claim_generator: get_text(m, &cgkey),
        software_agent: full.1,
        issuer: match sig {
            Some(s) => get_text(s, &ikey),
            None => None,
        },
        common_name,
        signing_time: match sig {
            Some(s) => get_text(s, &timekey),
            None => None,
        },
        sig_algorithm: match sig {
            Some(s) => get_text(s, &algkey),
            None => None,
        },
    }
}


} // verus!
