//! The verification pipeline: media bytes to crypto evidence, and
//! evidence to the canonical public-outputs verdict. Any failure up to
//! and including signature verification collapses to the unsigned
//! verdict; every non-empty field of a signed verdict is derived from
//! authenticated data alone.

use vstd::prelude::*;
use crate::bytes::vecs_view;
use crate::crypto::{sha256_of, ecdsa_p256_ok, sha256, ecdsa_p256_verify};
use crate::dissect::{spec_is_png, spec_is_jpeg, spec_is_bmff, spec_extract_c2pa_from_png,
    spec_extract_c2pa_from_bmff, is_png, is_jpeg, is_bmff, extract_c2pa_from_png,
    extract_c2pa_from_bmff};
use crate::jpeg::{spec_extract_c2pa_from_jpeg, extract_c2pa_from_jpeg};
use crate::jumbf::{GAssert, AssertionBox, asserts_view, spec_extract_manifest_parts,
    extract_manifest_parts};
use crate::cose::{spec_parse_cose, spec_alg_is_es256, spec_cert_chain_from_cose,
    spec_sig_structure, parse_cose, alg_is_es256, extract_cert_chain_from_cose, sig_structure};
use crate::x509::{spec_leaf_pubkey, spec_cert_names, leaf_pubkey, extract_cert_names};
use crate::claim::{spec_claim_generator, spec_from_actions, extract_claim_generator,
    extract_from_actions};
use crate::hexes::{spec_hex, hex_lower};
use crate::bytes::sub_vec;

verus! {

/// The deterministic, minimal input that drives verification.
pub struct CryptoEvidence {
    pub asset_hash: Vec<u8>,
    pub has_manifest: bool,
    pub cose_sign1_bytes: Vec<u8>,
    pub cert_chain_der: Vec<Vec<u8>>,
    pub claim_cbor: Vec<u8>,
    pub assertion_boxes: Vec<AssertionBox>,
    pub official_trust_anchors_der: Vec<Vec<u8>>,
    pub curated_trust_anchors_der: Vec<Vec<u8>>,
}

/// The ghost image of the evidence.
pub ghost struct GEvidence {
    pub asset_hash: Seq<u8>,
    pub has_manifest: bool,
    pub cose_sign1_bytes: Seq<u8>,
    pub cert_chain_der: Seq<Seq<u8>>,
    pub claim_cbor: Seq<u8>,
    pub assertion_boxes: Seq<GAssert>,
    pub official_trust_anchors_der: Seq<Seq<u8>>,
    pub curated_trust_anchors_der: Seq<Seq<u8>>,
}

impl CryptoEvidence {
    pub open spec fn view(&self) -> GEvidence {
        GEvidence {
            asset_hash: self.asset_hash@,
            has_manifest: self.has_manifest,
            cose_sign1_bytes: self.cose_sign1_bytes@,
            cert_chain_der: vecs_view(self.cert_chain_der@),
            claim_cbor: self.claim_cbor@,
            assertion_boxes: asserts_view(self.assertion_boxes@),
            official_trust_anchors_der: vecs_view(self.official_trust_anchors_der@),
            curated_trust_anchors_der: vecs_view(self.curated_trust_anchors_der@),
        }
    }
}

/// The public outputs: the content hash, the signature flag, and
/// the eight bounded string fields, all held as raw bytes.
pub struct PublicOutputs {
    pub content_hash: Vec<u8>,
    pub has_c2pa: bool,
    pub trust_list_match: Vec<u8>,
    pub validation_state: Vec<u8>,
    pub digital_source_type: Vec<u8>,
    pub issuer: Vec<u8>,
    pub common_name: Vec<u8>,
    pub software_agent: Vec<u8>,
    pub signing_time: Vec<u8>,
    pub cert_fingerprint: Vec<u8>,
}

/// The ghost image of the verdict.
pub ghost struct GOutputs {
    pub content_hash: Seq<u8>,
    pub has_c2pa: bool,
    pub trust_list_match: Seq<u8>,
    pub validation_state: Seq<u8>,
    pub digital_source_type: Seq<u8>,
    pub issuer: Seq<u8>,
    pub common_name: Seq<u8>,
    pub software_agent: Seq<u8>,
    pub signing_time: Seq<u8>,
    pub cert_fingerprint: Seq<u8>,
}

impl PublicOutputs {
    pub open spec fn view(&self) -> GOutputs {
        GOutputs {
            content_hash: self.content_hash@,
            has_c2pa: self.has_c2pa,
            trust_list_match: self.trust_list_match@,
            validation_state: self.validation_state@,
            digital_source_type: self.digital_source_type@,
            issuer: self.issuer@,
            common_name: self.common_name@,
            software_agent: self.software_agent@,
            signing_time: self.signing_time@,
            cert_fingerprint: self.cert_fingerprint@,
        }
    }
}

/// The ASCII bytes of the state `None`.
pub open spec fn spec_state_none() -> Seq<u8> {
    seq![0x4Eu8, 0x6F, 0x6E, 0x65]
}

/// The ASCII bytes of the state `SignatureOnly`.
pub open spec fn spec_state_signature_only() -> Seq<u8> {
    seq![0x53u8, 0x69, 0x67, 0x6e, 0x61, 0x74, 0x75, 0x72, 0x65, 0x4F, 0x6e, 0x6c, 0x79]
}

/// The ASCII bytes of the state `Verified`.
pub open spec fn spec_state_verified() -> Seq<u8> {
    seq![0x56u8, 0x65, 0x72, 0x69, 0x66, 0x69, 0x65, 0x64]
}

/// The ASCII bytes of the label `official`.
pub open spec fn spec_label_official() -> Seq<u8> {
    seq![0x6fu8, 0x66, 0x66, 0x69, 0x63, 0x69, 0x61, 0x6c]
}

/// The ASCII bytes of the label `curated`.
pub open spec fn spec_label_curated() -> Seq<u8> {
    seq![0x63u8, 0x75, 0x72, 0x61, 0x74, 0x65, 0x64]
}

/// The ASCII bytes of the label `untrusted`.
pub open spec fn spec_label_untrusted() -> Seq<u8> {
    seq![0x75u8, 0x6e, 0x74, 0x72, 0x75, 0x73, 0x74, 0x65, 0x64]
}

/// The state `None`, as a vector.
pub fn state_none() -> (r: Vec<u8>)
    ensures
        r@ == spec_state_none(),
{
    let mut v: Vec<u8> = Vec::new();
    v.push(0x4E);
    v.push(0x6F);
    v.push(0x6E);
    v.push(0x65);
    proof {
        assert(v@ =~= spec_state_none());
    }
    v
}

/// The state `SignatureOnly`, as a vector.
pub fn state_signature_only() -> (r: Vec<u8>)
    ensures
        r@ == spec_state_signature_only(),
{
    let mut v: Vec<u8> = Vec::new();
    v.push(0x53);
    v.push(0x69);
    v.push(0x67);
    v.push(0x6e);
    v.push(0x61);
    v.push(0x74);
    v.push(0x75);
    v.push(0x72);
    v.push(0x65);
    v.push(0x4F);
    v.push(0x6e);
    v.push(0x6c);
    v.push(0x79);
    proof {
        assert(v@ =~= spec_state_signature_only());
    }
    v
}

/// The state `Verified`, as a vector.
pub fn state_verified() -> (r: Vec<u8>)
    ensures
        r@ == spec_state_verified(),
{
    let mut v: Vec<u8> = Vec::new();
    v.push(0x56);
    v.push(0x65);
    v.push(0x72);
    v.push(0x69);
    v.push(0x66);
    v.push(0x69);
    v.push(0x65);
    v.push(0x64);
    proof {
        assert(v@ =~= spec_state_verified());
    }
    v
}

/// The label `official`, as a vector.
pub fn label_official() -> (r: Vec<u8>)
    ensures
        r@ == spec_label_official(),
{
    let mut v: Vec<u8> = Vec::new();
    v.push(0x6f);
    v.push(0x66);
    v.push(0x66);
    v.push(0x69);
    v.push(0x63);
    v.push(0x69);
    v.push(0x61);
    v.push(0x6c);
    proof {
        assert(v@ =~= spec_label_official());
    }
    v
}

/// The label `curated`, as a vector.
pub fn label_curated() -> (r: Vec<u8>)
    ensures
        r@ == spec_label_curated(),
{
    let mut v: Vec<u8> = Vec::new();
    v.push(0x63);
    v.push(0x75);
    v.push(0x72);
    v.push(0x61);
    v.push(0x74);
    v.push(0x65);
    v.push(0x64);
    proof {
        assert(v@ =~= spec_label_curated());
    }
    v
}

/// The label `untrusted`, as a vector.
pub fn label_untrusted() -> (r: Vec<u8>)
    ensures
        r@ == spec_label_untrusted(),
{
    let mut v: Vec<u8> = Vec::new();
    v.push(0x75);
    v.push(0x6e);
    v.push(0x74);
    v.push(0x72);
    v.push(0x75);
    v.push(0x73);
    v.push(0x74);
    v.push(0x65);
    v.push(0x64);
    proof {
        assert(v@ =~= spec_label_untrusted());
    }
    v
}

/// The outputs for unverified media: no signature, validation state
/// `None`, and every other string field empty.
pub open spec fn spec_unsigned_outputs(content_hash: Seq<u8>) -> GOutputs {
    GOutputs {
        content_hash: content_hash,
        has_c2pa: false,
        trust_list_match: Seq::empty(),
        validation_state: spec_state_none(),
        digital_source_type: Seq::empty(),
        issuer: Seq::empty(),
        common_name: Seq::empty(),
        software_agent: Seq::empty(),
        signing_time: Seq::empty(),
        cert_fingerprint: Seq::empty(),
    }
}

/// Outputs for files with no verified C2PA signature.
pub fn unsigned_outputs(content_hash: Vec<u8>) -> (r: PublicOutputs)
    ensures
        r.view() == spec_unsigned_outputs(content_hash@),
{
    PublicOutputs {
        content_hash,
        has_c2pa: false,
        trust_list_match: Vec::new(),
        validation_state: state_none(),
        digital_source_type: Vec::new(),
        issuer: Vec::new(),
        common_name: Vec::new(),
        software_agent: Vec::new(),
        signing_time: Vec::new(),
        cert_fingerprint: Vec::new(),
    }
}

/// Whether `x` appears among the byte sequences of `s`.
pub open spec fn spec_contains_bytes(s: Seq<Seq<u8>>, x: Seq<u8>) -> bool {
    exists|i: int| 0 <= i < s.len() && s[i] == x
}

/// Whether two byte vectors hold the same bytes.
pub fn vec_eq(a: &Vec<u8>, b: &Vec<u8>) -> (r: bool)
    ensures
        r == (a@ == b@),
{
    if a.len() != b.len() {
        return false;
    }
    let r = crate::bytes::range_eq(a.as_slice(), 0, b.as_slice());
    proof {
        if r {
            assert(a@.subrange(0, b@.len() as int) =~= a@);
        } else {
            assert(a@.subrange(0, a@.len() as int) =~= a@);
        }
    }
    r
}

fn contains_bytes(s: &Vec<Vec<u8>>, x: &Vec<u8>) -> (r: bool)
    ensures
        r == spec_contains_bytes(vecs_view(s@), x@),
{
    let n = s.len();
    let mut i: usize = 0;
    while i < n
        invariant
            i <= n == s@.len(),
            forall|k: int| 0 <= k < i ==> vecs_view(s@)[k] != x@,
        decreases n - i,
    {
        if vec_eq(&s[i], x) {
            proof {
                assert(vecs_view(s@)[i as int] == x@);
            }
            return true;
        }
        i = i + 1;
    }
    false
}

/// The trust label of a chain against the two anchor sets: the root is
/// the last certificate; an official match wins over a curated one,
/// and anything else is untrusted.
pub open spec fn spec_trust_level(
    chain: Seq<Seq<u8>>,
    official: Seq<Seq<u8>>,
    curated: Seq<Seq<u8>>,
) -> Seq<u8> {
    if chain.len() == 0 {
        spec_label_untrusted()
    } else if spec_contains_bytes(official, chain.last()) {
        spec_label_official()
    } else if spec_contains_bytes(curated, chain.last()) {
        spec_label_curated()
    } else {
        spec_label_untrusted()
    }
}

/// Match the root certificate (last in chain) against the trust
/// anchor lists.
pub fn determine_trust_level(
    cert_chain: &Vec<Vec<u8>>,
    official_anchors: &Vec<Vec<u8>>,
    curated_anchors: &Vec<Vec<u8>>,
) -> (r: Vec<u8>)
    ensures
        r@ == spec_trust_level(
            vecs_view(cert_chain@),
            vecs_view(official_anchors@),
            vecs_view(curated_anchors@),
        ),
{
    let n = cert_chain.len();
    if n == 0 {
        return label_untrusted();
    }
    let root = &cert_chain[n - 1];
    proof {
        assert(root@ == vecs_view(cert_chain@).last());
    }
    if contains_bytes(official_anchors, root) {
        label_official()
    } else if contains_bytes(curated_anchors, root) {
        label_curated()
    } else {
        label_untrusted()
    }
}

/// Trust classification is order-preserving: where the root stands in
/// the official anchors, the label is `official`, whatever the curated
/// set holds.
pub proof fn lemma_trust_priority(
    chain: Seq<Seq<u8>>,
    official: Seq<Seq<u8>>,
    curated: Seq<Seq<u8>>,
)
    requires
        chain.len() > 0,
        spec_contains_bytes(official, chain.last()),
    ensures
        spec_trust_level(chain, official, curated) == spec_label_official(),
{
}

/// Whether the COSE signature of the evidence verifies: the envelope
/// parses, the algorithm is ES256, the leaf certificate yields a key,
/// and the ECDSA check over the reconstructed `Sig_structure1` with
/// the detached claim CBOR passes.
pub open spec fn spec_signature_verified(ev: GEvidence) -> bool {
    match spec_parse_cose(ev.cose_sign1_bytes) {
        None => false,
        Some(c) => {
            &&& spec_alg_is_es256(c.protected)
            &&& ev.cert_chain_der.len() > 0
            &&& match spec_leaf_pubkey(ev.cert_chain_der[0]) {
                None => false,
                Some(pk) => ecdsa_p256_ok(
                    pk,
                    spec_sig_structure(c.protected, ev.claim_cbor),
                    c.signature,
                ),
            }
        },
    }
}

/// The verdict of verified evidence: unsigned unless the signature
/// verifies, else the trust label, the projected certificate names,
/// claim and action fields, and the leaf fingerprint.
pub open spec fn spec_verify_and_extract(ev: GEvidence) -> GOutputs {
    if !spec_signature_verified(ev) {
        spec_unsigned_outputs(ev.asset_hash)
    } else {
        let trust = spec_trust_level(
            ev.cert_chain_der,
            ev.official_trust_anchors_der,
            ev.curated_trust_anchors_der,
        );
        let names = spec_cert_names(ev.cert_chain_der[0]);
        let acts = spec_from_actions(ev.assertion_boxes, 0);
        GOutputs {
            content_hash: ev.asset_hash,
            has_c2pa: true,
            trust_list_match: trust,
            validation_state: if trust == spec_label_untrusted() {
                spec_state_signature_only()
            } else {
                spec_state_verified()
            },
            digital_source_type: acts.0,
            issuer: names.0,
            common_name: names.1,
            software_agent: spec_claim_generator(ev.claim_cbor),
            signing_time: acts.1,
            cert_fingerprint: spec_hex(sha256_of(ev.cert_chain_der[0])),
        }
    }
}

/// A verdict claims a signature only where the signature verified:
/// `has_c2pa` implies the ECDSA check over the claim CBOR with the
/// leaf key passed.
pub proof fn lemma_signed_implies_verified(ev: GEvidence)
    ensures
        spec_verify_and_extract(ev).has_c2pa ==> spec_signature_verified(ev),
{
}

/// Without a verified signature the verdict is exactly the unsigned
/// one: every string field but the `None` state is empty, and nothing
/// extracted from the envelope appears.
pub proof fn lemma_unverified_is_unsigned(ev: GEvidence)
    ensures
        !spec_signature_verified(ev) ==> spec_verify_and_extract(ev) == spec_unsigned_outputs(
            ev.asset_hash,
        ),
{
}

/// Verify the COSE signature, classify the trust chain, and extract
/// the metadata fields from authenticated structures only.
pub fn verify_and_extract(evidence: &CryptoEvidence) -> (r: PublicOutputs)
    ensures
        r.view() == spec_verify_and_extract(evidence.view()),
{
    let hash_copy = sub_vec(evidence.asset_hash.as_slice(), 0, evidence.asset_hash.len());
    proof {
        assert(hash_copy@ =~= evidence.asset_hash@);
    }
    let cose = match parse_cose(evidence.cose_sign1_bytes.as_slice()) {
        None => {
            return unsigned_outputs(hash_copy);
        },
        Some(c) => c,
    };
    if !alg_is_es256(&cose.protected) {
        return unsigned_outputs(hash_copy);
    }
    if evidence.cert_chain_der.len() == 0 {
        return unsigned_outputs(hash_copy);
    }
    let leaf = &evidence.cert_chain_der[0];
    proof {
        assert(leaf@ == evidence.view().cert_chain_der[0]);
    }
    let pk = match leaf_pubkey(leaf.as_slice()) {
        None => {
            return unsigned_outputs(hash_copy);
        },
        Some(p) => p,
    };
    let tbs = sig_structure(&cose.protected, &evidence.claim_cbor);
    if !ecdsa_p256_verify(pk.as_slice(), tbs.as_slice(), cose.signature.as_slice()) {
        return unsigned_outputs(hash_copy);
    }
    let trust = determine_trust_level(
        &evidence.cert_chain_der,
        &evidence.official_trust_anchors_der,
        &evidence.curated_trust_anchors_der,
    );
    let untrusted = label_untrusted();
    let validation_state = if vec_eq(&trust, &untrusted) {
        state_signature_only()
    } else {
        state_verified()
    };
    let names = extract_cert_names(leaf.as_slice());
    let software_agent = extract_claim_generator(evidence.claim_cbor.as_slice());
    let acts = extract_from_actions(&evidence.assertion_boxes);
    let digest = sha256(leaf.as_slice());
    let cert_fingerprint = hex_lower(digest.as_slice());
    PublicOutputs {
        content_hash: hash_copy,
        has_c2pa: true,
        trust_list_match: trust,
        validation_state,
        digital_source_type: acts.0,
        issuer: names.0,
        common_name: names.1,
        software_agent,
        signing_time: acts.1,
        cert_fingerprint,
    }
}

/// The JUMBF payload of a media file, by magic-byte dispatch: PNG,
/// then JPEG, then BMFF; anything else carries none.
pub open spec fn spec_extract_jumbf(d: Seq<u8>) -> Option<Seq<u8>> {
    if spec_is_png(d) {
        spec_extract_c2pa_from_png(d)
    } else if spec_is_jpeg(d) {
        spec_extract_c2pa_from_jpeg(d)
    } else if spec_is_bmff(d) {
        spec_extract_c2pa_from_bmff(d)
    } else {
        None
    }
}

/// Locate and reassemble the JUMBF payload of a media file.
pub fn extract_jumbf(data: &[u8]) -> (r: Option<Vec<u8>>)
    ensures
        match r {
            Some(v) => spec_extract_jumbf(data@) == Some(v@),
            None => spec_extract_jumbf(data@) is None,
        },
{
    if is_png(data) {
        extract_c2pa_from_png(data)
    } else if is_jpeg(data) {
        extract_c2pa_from_jpeg(data)
    } else if is_bmff(data) {
        extract_c2pa_from_bmff(data)
    } else {
        None
    }
}

/// The evidence of a media file against the two anchor sets: its
/// SHA-256 content hash, and, where a JUMBF payload with a claim and
/// signature was found, the envelope, chain, claim, and assertions.
pub open spec fn spec_evidence(
    bytes: Seq<u8>,
    official: Seq<Seq<u8>>,
    curated: Seq<Seq<u8>>,
) -> GEvidence {
    let hash = sha256_of(bytes);
    let base = GEvidence {
        asset_hash: hash,
        has_manifest: false,
        cose_sign1_bytes: Seq::empty(),
        cert_chain_der: Seq::empty(),
        claim_cbor: Seq::empty(),
        assertion_boxes: Seq::empty(),
        official_trust_anchors_der: official,
        curated_trust_anchors_der: curated,
    };
    match spec_extract_jumbf(bytes) {
        None => base,
        Some(jumbf) => match spec_extract_manifest_parts(jumbf) {
            None => base,
            Some((claim, sig, asserts)) => GEvidence {
                asset_hash: hash,
                has_manifest: true,
                cose_sign1_bytes: sig,
                cert_chain_der: match spec_cert_chain_from_cose(sig) {
                    Some(c) => c,
                    None => Seq::empty(),
                },
                claim_cbor: claim,
                assertion_boxes: asserts,
                official_trust_anchors_der: official,
                curated_trust_anchors_der: curated,
            },
        },
    }
}

/// Dissect a media byte sequence and pair it with the trust anchors,
/// producing the evidence record the verifier consumes.
pub fn extract_crypto_evidence(
    media_bytes: &[u8],
    official_trust_anchors_der: Vec<Vec<u8>>,
    curated_trust_anchors_der: Vec<Vec<u8>>,
) -> (r: CryptoEvidence)
    ensures
        r.view() == spec_evidence(
            media_bytes@,
            vecs_view(official_trust_anchors_der@),
            vecs_view(curated_trust_anchors_der@),
        ),
{
    let asset_hash = sha256(media_bytes);
    let parts = match extract_jumbf(media_bytes) {
        None => None,
        Some(jumbf) => extract_manifest_parts(jumbf.as_slice()),
    };
    match parts {
        None => {
            let ev = CryptoEvidence {
                asset_hash,
                has_manifest: false,
                cose_sign1_bytes: Vec::new(),
                cert_chain_der: Vec::new(),
                claim_cbor: Vec::new(),
                assertion_boxes: Vec::new(),
                official_trust_anchors_der,
                curated_trust_anchors_der,
            };
            proof {
                assert(vecs_view(Seq::<Vec<u8>>::empty()) =~= Seq::<Seq<u8>>::empty());
                assert(asserts_view(Seq::<AssertionBox>::empty()) =~= Seq::<GAssert>::empty());
            }
            ev
        },
        Some((claim, sig, asserts)) => {
            let certs = match extract_cert_chain_from_cose(sig.as_slice()) {
                Some(c) => c,
                None => Vec::new(),
            };
            proof {
                assert(vecs_view(Seq::<Vec<u8>>::empty()) =~= Seq::<Seq<u8>>::empty());
            }
            CryptoEvidence {
                asset_hash,
                has_manifest: true,
                cose_sign1_bytes: sig,
                cert_chain_der: certs,
                claim_cbor: claim,
                assertion_boxes: asserts,
                official_trust_anchors_der,
                curated_trust_anchors_der,
            }
        },
    }
}

/// The verdict of a media file against the two anchor sets: a pure
/// function of its inputs.
pub open spec fn spec_verify(
    bytes: Seq<u8>,
    official: Seq<Seq<u8>>,
    curated: Seq<Seq<u8>>,
) -> GOutputs {
    let ev = spec_evidence(bytes, official, curated);
    if ev.has_manifest {
        spec_verify_and_extract(ev)
    } else {
        spec_unsigned_outputs(ev.asset_hash)
    }
}

/// Verify a media file's provenance against the two ordered anchor
/// sets and return the canonical verdict.
pub fn verify(
    media_bytes: &[u8],
    official_trust_anchors_der: Vec<Vec<u8>>,
    curated_trust_anchors_der: Vec<Vec<u8>>,
) -> (r: PublicOutputs)
    ensures
        r.view() == spec_verify(
            media_bytes@,
            vecs_view(official_trust_anchors_der@),
            vecs_view(curated_trust_anchors_der@),
        ),
{
    let evidence = extract_crypto_evidence(
        media_bytes,
        official_trust_anchors_der,
        curated_trust_anchors_der,
    );
    if evidence.has_manifest {
        verify_and_extract(&evidence)
    } else {
        let hash_copy = sub_vec(evidence.asset_hash.as_slice(), 0, evidence.asset_hash.len());
        proof {
            assert(hash_copy@ =~= evidence.asset_hash@);
        }
        unsigned_outputs(hash_copy)
    }
}


/// At the entry point: a verdict claims a signature only where the
/// evidence of those bytes verified, and without that the verdict is
/// exactly the unsigned one over the content hash — no field of the
/// envelope leaks.
pub proof fn lemma_verify_gated_by_signature(
    bytes: Seq<u8>,
    official: Seq<Seq<u8>>,
    curated: Seq<Seq<u8>>,
)
    ensures
        spec_verify(bytes, official, curated).has_c2pa ==> spec_signature_verified(
            spec_evidence(bytes, official, curated),
        ),
        !spec_signature_verified(spec_evidence(bytes, official, curated)) ==> spec_verify(
            bytes,
            official,
            curated,
        ) == spec_unsigned_outputs(sha256_of(bytes)),
{
}

/// Verification is deterministic: two verdicts of the same bytes and
/// the same anchor sets are equal.
pub proof fn lemma_verify_deterministic(
    o1: GOutputs,
    o2: GOutputs,
    bytes: Seq<u8>,
    official: Seq<Seq<u8>>,
    curated: Seq<Seq<u8>>,
)
    requires
        o1 == spec_verify(bytes, official, curated),
        o2 == spec_verify(bytes, official, curated),
    ensures
        o1 == o2,
{
}

} // verus!
