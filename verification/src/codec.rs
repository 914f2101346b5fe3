//! The fixed binary layout of the public outputs: the 32-byte
//! content hash, one flag byte, and eight strings each prefixed by an
//! 8-byte little-endian length. The ledger stores exactly these
//! bytes, and parsing a serialized record yields the record again.

use vstd::prelude::*;
use crate::bytes::{spec_u64_le, spec_u64_le_at, push_u64_le, u64_le_at, sub_vec,
    lemma_u64_le_roundtrip};
use crate::pipeline::{PublicOutputs, GOutputs};
use crate::utf8::{spec_valid_utf8, is_valid_utf8};
use crate::jpeg::append_bytes;
use crate::bytes::vecs_view;

verus! {

/// One length-prefixed string field.
pub open spec fn spec_str_field(s: Seq<u8>) -> Seq<u8> {
    spec_u64_le(s.len() as int) + s
}

/// The length-prefixed fields, in order.
pub open spec fn spec_write_strs(fs: Seq<Seq<u8>>) -> Seq<u8>
    decreases fs.len(),
{
    if fs.len() == 0 {
        Seq::empty()
    } else {
        spec_str_field(fs[0]) + spec_write_strs(fs.skip(1))
    }
}

/// The eight string fields of a verdict, in layout order.
pub open spec fn spec_out_fields(o: GOutputs) -> Seq<Seq<u8>> {
    seq![
        o.trust_list_match,
        o.validation_state,
        o.digital_source_type,
        o.issuer,
        o.common_name,
        o.software_agent,
        o.signing_time,
        o.cert_fingerprint,
    ]
}

/// The canonical serialization of a verdict.
pub open spec fn spec_serialize_outputs(o: GOutputs) -> Seq<u8> {
    o.content_hash + seq![
        if o.has_c2pa {
            1u8
        } else {
            0u8
        },
    ] + spec_write_strs(spec_out_fields(o))
}

/// Whether a verdict fits the canonical layout: a 32-byte hash and
/// well-formed UTF-8 in every string field.
pub open spec fn spec_outputs_wf(o: GOutputs) -> bool {
    &&& o.content_hash.len() == 32
    &&& forall|i: int|
        0 <= i < 8 ==> spec_valid_utf8(#[trigger] spec_out_fields(o)[i]) && spec_out_fields(
            o,
        )[i].len() < 0x10000000000000000
}

/// Append the length-prefixed fields from index `i` onward.
fn write_strs(fields: &Vec<Vec<u8>>, i: usize, out: &mut Vec<u8>)
    requires
        i <= fields@.len(),
    ensures
        final(out)@ == old(out)@ + spec_write_strs(vecs_view(fields@).skip(i as int)),
    decreases fields@.len() - i,
{
    if i >= fields.len() {
        proof {
            assert(vecs_view(fields@).skip(i as int) =~= Seq::<Seq<u8>>::empty());
            assert(out@ =~= out@ + spec_write_strs(Seq::<Seq<u8>>::empty()));
        }
        return;
    }
    push_u64_le(out, fields[i].len() as u64);
    append_bytes(out, &fields[i]);
    let ghost mid = out@;
    write_strs(fields, i + 1, out);
    proof {
        let fv = vecs_view(fields@);
        assert(fv.skip(i as int)[0] == fields@[i as int]@);
        assert(fv.skip(i as int).skip(1) =~= fv.skip(i + 1));
        assert(mid =~= old(out)@ + spec_str_field(fv.skip(i as int)[0]));
        assert(out@ =~= old(out)@ + spec_write_strs(fv.skip(i as int)));
    }
}

/// Serialize a verdict into its canonical layout.
pub fn serialize_public_outputs(o: &PublicOutputs) -> (r: Vec<u8>)
    requires
        o.content_hash@.len() == 32,
    ensures
        r@ == spec_serialize_outputs(o.view()),
{
    let mut out: Vec<u8> = Vec::new();
    append_bytes(&mut out, &o.content_hash);
    out.push(if o.has_c2pa {
        1
    } else {
        0
    });
    let ghost head = out@;
    proof {
        assert(head =~= o.view().content_hash + seq![
            if o.has_c2pa {
                1u8
            } else {
                0u8
            },
        ]);
    }
    let mut fields: Vec<Vec<u8>> = Vec::new();
    fields.push(sub_vec(o.trust_list_match.as_slice(), 0, o.trust_list_match.len()));
    fields.push(sub_vec(o.validation_state.as_slice(), 0, o.validation_state.len()));
    fields.push(sub_vec(o.digital_source_type.as_slice(), 0, o.digital_source_type.len()));
    fields.push(sub_vec(o.issuer.as_slice(), 0, o.issuer.len()));
    fields.push(sub_vec(o.common_name.as_slice(), 0, o.common_name.len()));
    fields.push(sub_vec(o.software_agent.as_slice(), 0, o.software_agent.len()));
    fields.push(sub_vec(o.signing_time.as_slice(), 0, o.signing_time.len()));
    fields.push(sub_vec(o.cert_fingerprint.as_slice(), 0, o.cert_fingerprint.len()));
    proof {
        assert(vecs_view(fields@) =~~= spec_out_fields(o.view()));
        assert(forall|s: Seq<Seq<u8>>| s.skip(0) =~= s);
    }
    write_strs(&fields, 0, &mut out);
    proof {
        assert(spec_out_fields(o.view()).skip(0) =~= spec_out_fields(o.view()));
        assert(out@ == spec_serialize_outputs(o.view()));
    }
    out
}

/// One length-prefixed, well-formed UTF-8 string read at `pos`: its
/// bytes and the position after it.
pub open spec fn spec_read_str(d: Seq<u8>, pos: int) -> Option<(Seq<u8>, int)> {
    if pos < 0 || pos + 8 > d.len() {
        None
    } else {
        let l = spec_u64_le_at(d, pos);
        if l > d.len() - (pos + 8) {
            None
        } else {
            let content = d.subrange(pos + 8, pos + 8 + l);
            if spec_valid_utf8(content) {
                Some((content, pos + 8 + l))
            } else {
                None
            }
        }
    }
}

/// `n` consecutive length-prefixed strings read from `pos`.
pub open spec fn spec_read_strs(d: Seq<u8>, pos: int, n: int) -> Option<(Seq<Seq<u8>>, int)>
    decreases n,
{
    if n <= 0 {
        Some((Seq::empty(), pos))
    } else {
        match spec_read_str(d, pos) {
            None => None,
            Some((s, next)) => match spec_read_strs(d, next, n - 1) {
                None => None,
                Some((rest, end)) => Some((seq![s] + rest, end)),
            },
        }
    }
}

/// The verdict parsed from its canonical layout; input past the last
/// field is tolerated.
pub open spec fn spec_parse_outputs(d: Seq<u8>) -> Option<GOutputs> {
    if d.len() < 33 {
        None
    } else {
        match spec_read_strs(d, 33, 8) {
            None => None,
            Some((fs, _end)) => Some(
                GOutputs {
                    content_hash: d.subrange(0, 32),
                    has_c2pa: d[32] != 0,
                    trust_list_match: fs[0],
                    validation_state: fs[1],
                    digital_source_type: fs[2],
                    issuer: fs[3],
                    common_name: fs[4],
                    software_agent: fs[5],
                    signing_time: fs[6],
                    cert_fingerprint: fs[7],
                },
            ),
        }
    }
}

/// Read one length-prefixed UTF-8 string: an 8-byte little-endian
/// length, then that many bytes.
pub fn read_bincode_string(data: &[u8], cursor: &mut usize) -> (r: Option<Vec<u8>>)
    ensures
        match r {
            Some(v) => spec_read_str(data@, *old(cursor) as int) == Some(
                (v@, *final(cursor) as int),
            ),
            None => spec_read_str(data@, *old(cursor) as int) is None && *final(cursor) == *old(
                cursor,
            ),
        },
{
    let n = data.len();
    let pos = *cursor;
    if pos > n || n - pos < 8 {
        return None;
    }
    let l = u64_le_at(data, pos);
    if l > (n - (pos + 8)) as u64 {
        return None;
    }
    let content = sub_vec(data, pos + 8, pos + 8 + l as usize);
    if is_valid_utf8(content.as_slice()) {
        *cursor = pos + 8 + l as usize;
        Some(content)
    } else {
        None
    }
}

/// Parse a verdict from its canonical layout.
#[verifier::rlimit(100)]
pub fn parse_public_outputs(data: &[u8]) -> (r: Option<PublicOutputs>)
    ensures
        match r {
            Some(o) => spec_parse_outputs(data@) == Some(o.view()),
            None => spec_parse_outputs(data@) is None,
        },
{
    proof {
        reveal_with_fuel(spec_read_strs, 10);
    }
    let n = data.len();
    if n < 33 {
        return None;
    }
    let content_hash = sub_vec(data, 0, 32);
    let has_c2pa = data[32] != 0;
    let mut cursor: usize = 33;
    let trust_list_match = match read_bincode_string(data, &mut cursor) {
        None => {
            return None;
        },
        Some(v) => v,
    };
    let validation_state = match read_bincode_string(data, &mut cursor) {
        None => {
            return None;
        },
        Some(v) => v,
    };
    let digital_source_type = match read_bincode_string(data, &mut cursor) {
        None => {
            return None;
        },
        Some(v) => v,
    };
    let issuer = match read_bincode_string(data, &mut cursor) {
        None => {
            return None;
        },
        Some(v) => v,
    };
    let common_name = match read_bincode_string(data, &mut cursor) {
        None => {
            return None;
        },
        Some(v) => v,
    };
    let software_agent = match read_bincode_string(data, &mut cursor) {
        None => {
            return None;
        },
        Some(v) => v,
    };
    let signing_time = match read_bincode_string(data, &mut cursor) {
        None => {
            return None;
        },
        Some(v) => v,
    };
    let cert_fingerprint = match read_bincode_string(data, &mut cursor) {
        None => {
            return None;
        },
        Some(v) => v,
    };
    let r = PublicOutputs {
        content_hash,
        has_c2pa,
        trust_list_match,
        validation_state,
        digital_source_type,
        issuer,
        common_name,
        software_agent,
        signing_time,
        cert_fingerprint,
    };
    proof {
        assert(spec_parse_outputs(data@) == Some(r.view()));
    }
    Some(r)
}

proof fn lemma_split_concat(d: Seq<u8>, pos: int, a: Seq<u8>, b: Seq<u8>)
    requires
        0 <= pos,
        pos + a.len() + b.len() <= d.len(),
        d.subrange(pos, pos + a.len() + b.len()) == a + b,
    ensures
        d.subrange(pos, pos + a.len() as int) == a,
        d.subrange(pos + a.len() as int, pos + a.len() + b.len()) == b,
{
    let ab = a + b;
    assert forall|k: int| 0 <= k < a.len() implies d.subrange(pos, pos + a.len() as int)[k]
        == a[k] by {
        assert(d.subrange(pos, pos + a.len() + b.len())[k] == ab[k]);
    }
    assert(d.subrange(pos, pos + a.len() as int) =~= a);
    assert forall|k: int|
        0 <= k < b.len() implies d.subrange(pos + a.len() as int, pos + a.len() + b.len())[k]
        == b[k] by {
        assert(d.subrange(pos, pos + a.len() + b.len())[a.len() + k] == ab[a.len() + k]);
    }
    assert(d.subrange(pos + a.len() as int, pos + a.len() + b.len()) =~= b);
}

proof fn lemma_read_write(d: Seq<u8>, pos: int, fs: Seq<Seq<u8>>)
    requires
        0 <= pos,
        pos + spec_write_strs(fs).len() <= d.len(),
        d.subrange(pos, pos + spec_write_strs(fs).len() as int) == spec_write_strs(fs),
        forall|i: int|
            0 <= i < fs.len() ==> spec_valid_utf8(#[trigger] fs[i]) && fs[i].len()
                < 0x10000000000000000,
    ensures
        spec_read_strs(d, pos, fs.len() as int) == Some(
            (fs, pos + spec_write_strs(fs).len() as int),
        ),
    decreases fs.len(),
{
    if fs.len() == 0 {
        assert(spec_read_strs(d, pos, 0) == Some((Seq::<Seq<u8>>::empty(), pos)));
        assert(fs =~= Seq::<Seq<u8>>::empty());
    } else {
        let s0 = fs[0];
        let w0 = spec_str_field(s0);
        let le = spec_u64_le(s0.len() as int);
        let rest = spec_write_strs(fs.skip(1));
        lemma_split_concat(d, pos, w0, rest);
        lemma_split_concat(d, pos, le, s0);
        lemma_u64_le_roundtrip(s0.len() as u64, d, pos);
        assert(spec_u64_le_at(d, pos) == s0.len());
        assert(spec_read_str(d, pos) == Some((s0, pos + 8 + s0.len() as int)));
        let next = pos + 8 + s0.len() as int;
        assert(forall|i: int|
            0 <= i < fs.skip(1).len() ==> spec_valid_utf8(#[trigger] fs.skip(1)[i]) && fs.skip(
                1,
            )[i].len() < 0x10000000000000000) by {
            assert(forall|i: int| 0 <= i < fs.skip(1).len() ==> #[trigger] fs.skip(1)[i] == fs[
                i + 1]);
        };
        lemma_read_write(d, next, fs.skip(1));
        assert(seq![s0] + fs.skip(1) =~= fs);
    }
}

/// Round trip: parsing a serialized well-formed verdict recovers it
/// exactly.
pub proof fn lemma_outputs_roundtrip(o: GOutputs)
    requires
        spec_outputs_wf(o),
    ensures
        spec_parse_outputs(spec_serialize_outputs(o)) == Some(o),
{
    let d = spec_serialize_outputs(o);
    let fs = spec_out_fields(o);
    let w = spec_write_strs(fs);
    assert(d.len() == 33 + w.len());
    assert(d.subrange(33, 33 + w.len() as int) =~= w) by {
        assert(forall|k: int| 0 <= k < w.len() ==> d.subrange(33, 33 + w.len() as int)[k]
            == #[trigger] w[k]);
    };
    lemma_read_write(d, 33, fs);
    assert(spec_read_strs(d, 33, 8) == Some((fs, 33 + w.len() as int)));
    let parsed = spec_parse_outputs(d).unwrap();
    assert(parsed.content_hash =~= o.content_hash) by {
        assert(forall|k: int| 0 <= k < 32 ==> d.subrange(0, 32)[k] == #[trigger] o.content_hash[
            k]);
    };
    assert(d[32] == if o.has_c2pa {
        1u8
    } else {
        0u8
    });
    assert(parsed.has_c2pa == o.has_c2pa);
    assert(parsed == o);
}

} // verus!
