//! Instruction-data encodings for the attestation program: an 8-byte
//! method discriminator, raw 32-byte hashes, one flag byte, and
//! length-prefixed byte strings with a 4-byte little-endian length.

use vstd::prelude::*;
use crate::bytes::{spec_u32_le, push_u32_le, vecs_view};
use crate::jpeg::append_bytes;
use crate::bytes::vec_clone;

verus! {

/// One length-prefixed byte string: a 4-byte little-endian length and
/// the bytes.
pub open spec fn spec_borsh_bytes(s: Seq<u8>) -> Seq<u8> {
    spec_u32_le(s.len() as int) + s
}

/// The length-prefixed strings, in order.
pub open spec fn spec_borsh_strs(fs: Seq<Seq<u8>>) -> Seq<u8>
    decreases fs.len(),
{
    if fs.len() == 0 {
        Seq::empty()
    } else {
        spec_borsh_bytes(fs[0]) + spec_borsh_strs(fs.skip(1))
    }
}

/// Append one length-prefixed byte string.
pub fn push_borsh_bytes(out: &mut Vec<u8>, s: &Vec<u8>)
    requires
        s@.len() < 0x100000000,
    ensures
        final(out)@ == old(out)@ + spec_borsh_bytes(s@),
{
    push_u32_le(out, s.len() as u32);
    append_bytes(out, s);
    proof {
        assert(out@ =~= old(out)@ + spec_borsh_bytes(s@));
    }
}

fn push_borsh_strs(fields: &Vec<Vec<u8>>, i: usize, out: &mut Vec<u8>)
    requires
        i <= fields@.len(),
        forall|k: int| 0 <= k < fields@.len() ==> (#[trigger] fields@[k])@.len() < 0x100000000,
    ensures
        final(out)@ == old(out)@ + spec_borsh_strs(vecs_view(fields@).skip(i as int)),
    decreases fields@.len() - i,
{
    if i >= fields.len() {
        proof {
            assert(vecs_view(fields@).skip(i as int) =~= Seq::<Seq<u8>>::empty());
            assert(out@ =~= out@ + spec_borsh_strs(Seq::<Seq<u8>>::empty()));
        }
        return;
    }
    push_borsh_bytes(out, &fields[i]);
    let ghost mid = out@;
    push_borsh_strs(fields, i + 1, out);
    proof {
        let fv = vecs_view(fields@);
        assert(fv.skip(i as int)[0] == fields@[i as int]@);
        assert(fv.skip(i as int).skip(1) =~= fv.skip(i + 1));
        assert(mid =~= old(out)@ + spec_borsh_bytes(fv.skip(i as int)[0]));
        assert(out@ =~= old(out)@ + spec_borsh_strs(fv.skip(i as int)));
    }
}

/// The discriminator of the trusted-verifier write instruction.
pub open spec fn spec_disc_submit_attestation() -> Seq<u8> {
    seq![238u8, 220, 255, 105, 183, 211, 40, 83]
}

/// The discriminator of the proof-backed write instruction.
pub open spec fn spec_disc_submit_proof() -> Seq<u8> {
    seq![54u8, 241, 46, 84, 4, 212, 46, 94]
}

/// The discriminator of the identity write instruction.
pub open spec fn spec_disc_submit_identity() -> Seq<u8> {
    seq![72u8, 233, 38, 193, 138, 137, 49, 75]
}

fn push_disc_submit_attestation(out: &mut Vec<u8>)
    ensures
        final(out)@ == old(out)@ + spec_disc_submit_attestation(),
{
    out.push(238);
    out.push(220);
    out.push(255);
    out.push(105);
    out.push(183);
    out.push(211);
    out.push(40);
    out.push(83);
    proof {
        assert(out@ =~= old(out)@ + spec_disc_submit_attestation());
    }
}

fn push_disc_submit_proof(out: &mut Vec<u8>)
    ensures
        final(out)@ == old(out)@ + spec_disc_submit_proof(),
{
    out.push(54);
    out.push(241);
    out.push(46);
    out.push(84);
    out.push(4);
    out.push(212);
    out.push(46);
    out.push(94);
    proof {
        assert(out@ =~= old(out)@ + spec_disc_submit_proof());
    }
}

fn push_disc_submit_identity(out: &mut Vec<u8>)
    ensures
        final(out)@ == old(out)@ + spec_disc_submit_identity(),
{
    out.push(72);
    out.push(233);
    out.push(38);
    out.push(193);
    out.push(138);
    out.push(137);
    out.push(49);
    out.push(75);
    proof {
        assert(out@ =~= old(out)@ + spec_disc_submit_identity());
    }
}

/// The instruction data of the trusted-verifier write: discriminator,
/// raw content hash, flag byte, then the eight fields.
pub open spec fn spec_encode_attestation_data(
    content_hash: Seq<u8>,
    has_c2pa: bool,
    fs: Seq<Seq<u8>>,
) -> Seq<u8> {
    spec_disc_submit_attestation() + content_hash + seq![
        if has_c2pa {
            1u8
        } else {
            0u8
        },
    ] + spec_borsh_strs(fs)
}

/// Encode the trusted-verifier write instruction data: the verdict's
/// eight string fields follow the hash and flag in layout order.
pub fn encode_attestation_data(
    content_hash: &Vec<u8>,
    has_c2pa: bool,
    trust_list_match: &Vec<u8>,
    validation_state: &Vec<u8>,
    digital_source_type: &Vec<u8>,
    issuer: &Vec<u8>,
    common_name: &Vec<u8>,
    software_agent: &Vec<u8>,
    signing_time: &Vec<u8>,
    cert_fingerprint: &Vec<u8>,
) -> (r: Vec<u8>)
    requires
        trust_list_match@.len() < 0x100000000,
        validation_state@.len() < 0x100000000,
        digital_source_type@.len() < 0x100000000,
        issuer@.len() < 0x100000000,
        common_name@.len() < 0x100000000,
        software_agent@.len() < 0x100000000,
        signing_time@.len() < 0x100000000,
        cert_fingerprint@.len() < 0x100000000,
    ensures
        r@ == spec_encode_attestation_data(
            content_hash@,
            has_c2pa,
            seq![
                trust_list_match@,
                validation_state@,
                digital_source_type@,
                issuer@,
                common_name@,
                software_agent@,
                signing_time@,
                cert_fingerprint@,
            ],
        ),
{
    let mut out: Vec<u8> = Vec::new();
    push_disc_submit_attestation(&mut out);
    append_bytes(&mut out, content_hash);
    out.push(if has_c2pa {
        1
    } else {
        0
    });
    let ghost head = out@;
    proof {
        assert(head =~= spec_disc_submit_attestation() + content_hash@ + seq![
            if has_c2pa {
                1u8
            } else {
                0u8
            },
        ]);
    }
    let mut fields: Vec<Vec<u8>> = Vec::new();
    fields.push(vec_clone(trust_list_match));
    fields.push(vec_clone(validation_state));
    fields.push(vec_clone(digital_source_type));
    fields.push(vec_clone(issuer));
    fields.push(vec_clone(common_name));
    fields.push(vec_clone(software_agent));
    fields.push(vec_clone(signing_time));
    fields.push(vec_clone(cert_fingerprint));
    proof {
        assert(vecs_view(fields@) =~~= seq![
            trust_list_match@,
            validation_state@,
            digital_source_type@,
            issuer@,
            common_name@,
            software_agent@,
            signing_time@,
            cert_fingerprint@,
        ]);
    }
    push_borsh_strs(&fields, 0, &mut out);
    proof {
        assert(vecs_view(fields@).skip(0) =~= vecs_view(fields@));
        assert(out@ == spec_encode_attestation_data(
            content_hash@,
            has_c2pa,
            vecs_view(fields@),
        ));
    }
    out
}

/// The instruction data of the identity write: discriminator, raw
/// content hash, the length-prefixed domain, and the raw email hash.
pub open spec fn spec_encode_identity_data(
    content_hash: Seq<u8>,
    domain: Seq<u8>,
    email_hash: Seq<u8>,
) -> Seq<u8> {
    spec_disc_submit_identity() + content_hash + spec_borsh_bytes(domain) + email_hash
}

/// Encode the identity write instruction data.
pub fn encode_identity_data(content_hash: &Vec<u8>, domain: &Vec<u8>, email_hash: &Vec<u8>) -> (r:
    Vec<u8>)
    requires
        domain@.len() < 0x100000000,
    ensures
        r@ == spec_encode_identity_data(content_hash@, domain@, email_hash@),
{
    let mut out: Vec<u8> = Vec::new();
    push_disc_submit_identity(&mut out);
    append_bytes(&mut out, content_hash);
    push_borsh_bytes(&mut out, domain);
    append_bytes(&mut out, email_hash);
    proof {
        assert(out@ =~= spec_encode_identity_data(content_hash@, domain@, email_hash@));
    }
    out
}

/// The instruction data of the proof-backed write: discriminator, the
/// length-prefixed proof and public inputs, the raw content hash, the
/// flag byte, then the seven fields it carries.
pub open spec fn spec_encode_instruction_data(
    proof_bytes: Seq<u8>,
    public_inputs: Seq<u8>,
    content_hash: Seq<u8>,
    has_c2pa: bool,
    fs: Seq<Seq<u8>>,
) -> Seq<u8> {
    spec_disc_submit_proof() + spec_borsh_bytes(proof_bytes) + spec_borsh_bytes(public_inputs)
        + content_hash + seq![
        if has_c2pa {
            1u8
        } else {
            0u8
        },
    ] + spec_borsh_strs(fs)
}

/// Encode the proof-backed write instruction data.
pub fn encode_instruction_data(
    proof_bytes: &Vec<u8>,
    public_inputs: &Vec<u8>,
    content_hash: &Vec<u8>,
    has_c2pa: bool,
    trust_list_match: &Vec<u8>,
    validation_state: &Vec<u8>,
    digital_source_type: &Vec<u8>,
    issuer: &Vec<u8>,
    common_name: &Vec<u8>,
    software_agent: &Vec<u8>,
    signing_time: &Vec<u8>,
) -> (r: Vec<u8>)
    requires
        proof_bytes@.len() < 0x100000000,
        public_inputs@.len() < 0x100000000,
        trust_list_match@.len() < 0x100000000,
        validation_state@.len() < 0x100000000,
        digital_source_type@.len() < 0x100000000,
        issuer@.len() < 0x100000000,
        common_name@.len() < 0x100000000,
        software_agent@.len() < 0x100000000,
        signing_time@.len() < 0x100000000,
    ensures
        r@ == spec_encode_instruction_data(
            proof_bytes@,
            public_inputs@,
            content_hash@,
            has_c2pa,
            seq![
                trust_list_match@,
                validation_state@,
                digital_source_type@,
                issuer@,
                common_name@,
                software_agent@,
                signing_time@,
            ],
        ),
{
    let mut out: Vec<u8> = Vec::new();
    push_disc_submit_proof(&mut out);
    push_borsh_bytes(&mut out, proof_bytes);
    push_borsh_bytes(&mut out, public_inputs);
    append_bytes(&mut out, content_hash);
    out.push(if has_c2pa {
        1
    } else {
        0
    });
    let ghost head = out@;
    proof {
        assert(head =~= spec_disc_submit_proof() + spec_borsh_bytes(proof_bytes@)
            + spec_borsh_bytes(public_inputs@) + content_hash@ + seq![
            if has_c2pa {
                1u8
            } else {
                0u8
            },
        ]);
    }
    let mut fields: Vec<Vec<u8>> = Vec::new();
    fields.push(vec_clone(trust_list_match));
    fields.push(vec_clone(validation_state));
    fields.push(vec_clone(digital_source_type));
    fields.push(vec_clone(issuer));
    fields.push(vec_clone(common_name));
    fields.push(vec_clone(software_agent));
    fields.push(vec_clone(signing_time));
    proof {
        assert(vecs_view(fields@) =~~= seq![
            trust_list_match@,
            validation_state@,
            digital_source_type@,
            issuer@,
            common_name@,
            software_agent@,
            signing_time@,
        ]);
    }
    push_borsh_strs(&fields, 0, &mut out);
    proof {
        assert(vecs_view(fields@).skip(0) =~= vecs_view(fields@));
        assert(out@ == spec_encode_instruction_data(
            proof_bytes@,
            public_inputs@,
            content_hash@,
            has_c2pa,
            vecs_view(fields@),
        ));
    }
    out
}

} // verus!
