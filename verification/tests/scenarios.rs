//! End-to-end scenarios over the verification pipeline: unsigned
//! containers, a wrong algorithm, a valid P-256 chain against each
//! anchor configuration, and JPEG fragment reassembly.

use p256::ecdsa::signature::Signer;
use sha2::Digest;

// ---------------------------------------------------------------------------
// byte-construction helpers
// ---------------------------------------------------------------------------

fn u32be(n: u32) -> Vec<u8> {
    n.to_be_bytes().to_vec()
}

/// A JUMBF/BMFF box: 4-byte size, 4-byte type, content.
fn jbox(typ: &[u8; 4], content: &[u8]) -> Vec<u8> {
    let mut v = u32be(8 + content.len() as u32);
    v.extend_from_slice(typ);
    v.extend_from_slice(content);
    v
}

/// A description box content: UUID, toggles with the label bit, label.
fn jumd(label: &str) -> Vec<u8> {
    let mut v = vec![0u8; 16];
    v.push(0x03);
    v.extend_from_slice(label.as_bytes());
    v.push(0);
    v
}

/// A labelled superbox holding one content box.
fn labelled(label: &str, content_box: Vec<u8>) -> Vec<u8> {
    let mut inner = jbox(b"jumd", &jumd(label));
    inner.extend_from_slice(&content_box);
    jbox(b"jumb", &inner)
}

/// A PNG holding the JUMBF payload in one caBX chunk.
fn png_with_cabx(payload: &[u8]) -> Vec<u8> {
    let mut v = vec![0x89, 0x50, 0x4E, 0x47, 0x0D, 0x0A, 0x1A, 0x0A];
    v.extend_from_slice(&u32be(payload.len() as u32));
    v.extend_from_slice(b"caBX");
    v.extend_from_slice(payload);
    v.extend_from_slice(&[0, 0, 0, 0]); // CRC, ignored
    v
}

// minimal CBOR builders
fn cbor_head(major: u8, val: u64) -> Vec<u8> {
    let mut v = Vec::new();
    if val < 24 {
        v.push(major << 5 | val as u8);
    } else if val < 0x100 {
        v.push(major << 5 | 24);
        v.push(val as u8);
    } else if val < 0x10000 {
        v.push(major << 5 | 25);
        v.extend_from_slice(&(val as u16).to_be_bytes());
    } else {
        v.push(major << 5 | 26);
        v.extend_from_slice(&(val as u32).to_be_bytes());
    }
    v
}

fn cbor_uint(n: u64) -> Vec<u8> {
    cbor_head(0, n)
}

fn cbor_nint(encoded: u64) -> Vec<u8> {
    cbor_head(1, encoded)
}

fn cbor_bstr(b: &[u8]) -> Vec<u8> {
    let mut v = cbor_head(2, b.len() as u64);
    v.extend_from_slice(b);
    v
}

fn cbor_text(s: &str) -> Vec<u8> {
    let mut v = cbor_head(3, s.len() as u64);
    v.extend_from_slice(s.as_bytes());
    v
}

fn cbor_array(items: &[Vec<u8>]) -> Vec<u8> {
    let mut v = cbor_head(4, items.len() as u64);
    for i in items {
        v.extend_from_slice(i);
    }
    v
}

fn cbor_map(pairs: &[(Vec<u8>, Vec<u8>)]) -> Vec<u8> {
    let mut v = cbor_head(5, pairs.len() as u64);
    for (k, val) in pairs {
        v.extend_from_slice(k);
        v.extend_from_slice(val);
    }
    v
}

// minimal DER builders
fn der(tag: u8, content: &[u8]) -> Vec<u8> {
    let mut v = vec![tag];
    let n = content.len();
    if n < 0x80 {
        v.push(n as u8);
    } else if n < 0x100 {
        v.push(0x81);
        v.push(n as u8);
    } else {
        v.push(0x82);
        v.extend_from_slice(&(n as u16).to_be_bytes());
    }
    v.extend_from_slice(content);
    v
}

fn der_name(attrs: &[(&[u8], &str)]) -> Vec<u8> {
    let mut rdns = Vec::new();
    for (oid, text) in attrs {
        let atv = der(0x30, &[der(0x06, oid), der(0x0C, text.as_bytes())].concat());
        rdns.extend_from_slice(&der(0x31, &atv));
    }
    der(0x30, &rdns)
}

/// A leaf certificate around an uncompressed SEC1 P-256 public key.
fn leaf_cert(pubkey_sec1: &[u8], org: &str, cn: &str) -> Vec<u8> {
    let serial = der(0x02, &[1]);
    let sigalg = der(0x30, &[]);
    let issuer = der_name(&[(&[0x55, 0x04, 0x0A], org)]);
    let validity = der(0x30, &[]);
    let subject = der_name(&[(&[0x55, 0x04, 0x03], cn)]);
    let mut bits = vec![0u8];
    bits.extend_from_slice(pubkey_sec1);
    let spki = der(0x30, &[der(0x30, &[]), der(0x03, &bits)].concat());
    let tbs = der(
        0x30,
        &[serial, sigalg, issuer, validity, subject, spki].concat(),
    );
    let sig = der(0x03, &[0, 0]);
    der(0x30, &[tbs, der(0x30, &[]), sig].concat())
}

/// A COSE_Sign1 with the given algorithm value signed over the claim.
fn cose_sign1(
    key: &p256::ecdsa::SigningKey,
    alg_nint_encoded: u64,
    leaf_der: &[u8],
    claim: &[u8],
) -> Vec<u8> {
    let protected_content = cbor_map(&[(cbor_uint(1), cbor_nint(alg_nint_encoded))]);
    let tbs = provenance::cose::sig_structure(&protected_content, &claim.to_vec());
    let sig: p256::ecdsa::Signature = key.sign(&tbs);
    let sig_bytes = sig.to_bytes().to_vec();
    let unprotected = cbor_map(&[(
        cbor_uint(33),
        cbor_array(&[cbor_bstr(leaf_der)]),
    )]);
    let mut v = cbor_head(6, 18); // tag 18
    v.extend_from_slice(&cbor_array(&[
        cbor_bstr(&protected_content),
        unprotected,
        vec![0xF6], // nil payload
        cbor_bstr(&sig_bytes),
    ]));
    v
}

fn claim_cbor() -> Vec<u8> {
    cbor_map(&[(cbor_text("claim_generator"), cbor_text("TestTool/1.0"))])
}

fn actions_assertion_data() -> Vec<u8> {
    cbor_map(&[(
        cbor_text("actions"),
        cbor_array(&[cbor_map(&[
            (cbor_text("action"), cbor_text("c2pa.created")),
            (
                cbor_text("digitalSourceType"),
                cbor_text("http://cv.iptc.org/newscodes/digitalsourcetype/trainedAlgorithmicMedia"),
            ),
            (cbor_text("when"), cbor_text("2024-01-02T03:04:05Z")),
        ])]),
    )])
}

/// A full manifest store wrapping the claim, signature, and one
/// actions assertion.
fn manifest_store(cose: &[u8], claim: &[u8]) -> Vec<u8> {
    let claim_box = labelled("c2pa.claim", jbox(b"cbor", claim));
    let sig_box = labelled("c2pa.signature", jbox(b"cbor", cose));
    let action_box = labelled("c2pa.actions", jbox(b"cbor", &actions_assertion_data()));
    let mut assert_store_inner = jbox(b"jumd", &jumd("c2pa.assertions"));
    assert_store_inner.extend_from_slice(&action_box);
    let assert_store = jbox(b"jumb", &assert_store_inner);
    let mut manifest_inner = jbox(b"jumd", &jumd("urn:uuid:manifest"));
    manifest_inner.extend_from_slice(&assert_store);
    manifest_inner.extend_from_slice(&claim_box);
    manifest_inner.extend_from_slice(&sig_box);
    let manifest = jbox(b"jumb", &manifest_inner);
    let mut store_inner = jbox(b"jumd", &jumd("c2pa"));
    store_inner.extend_from_slice(&manifest);
    jbox(b"jumb", &store_inner)
}

fn signing_key() -> p256::ecdsa::SigningKey {
    p256::ecdsa::SigningKey::from_slice(&[7u8; 32]).unwrap()
}

fn run_verify(media: &[u8], official: Vec<Vec<u8>>, curated: Vec<Vec<u8>>) -> provenance::pipeline::PublicOutputs {
    provenance::pipeline::verify(media, official, curated)
}

// ---------------------------------------------------------------------------
// scenarios
// ---------------------------------------------------------------------------

#[test]
fn unsigned_png_minimal() {
    let mut input = vec![0x89, 0x50, 0x4E, 0x47, 0x0D, 0x0A, 0x1A, 0x0A];
    input.extend_from_slice(&[0x00, 0x00, 0x00, 0x00, 0x49, 0x45, 0x4E, 0x44]);
    let out = run_verify(&input, Vec::new(), Vec::new());
    assert!(!out.has_c2pa);
    assert_eq!(out.validation_state, b"None".to_vec());
    assert_eq!(out.trust_list_match, Vec::<u8>::new());
    assert_eq!(out.digital_source_type, Vec::<u8>::new());
    assert_eq!(out.issuer, Vec::<u8>::new());
    assert_eq!(out.common_name, Vec::<u8>::new());
    assert_eq!(out.software_agent, Vec::<u8>::new());
    assert_eq!(out.signing_time, Vec::<u8>::new());
    assert_eq!(out.cert_fingerprint, Vec::<u8>::new());
    let expected_hash: Vec<u8> = sha2::Sha256::digest(&input).to_vec();
    assert_eq!(out.content_hash, expected_hash);
}

#[test]
fn png_with_non_c2pa_cabx() {
    let input = png_with_cabx(&[0xDE, 0xAD, 0xBE, 0xEF]);
    let out = run_verify(&input, Vec::new(), Vec::new());
    assert!(!out.has_c2pa);
    assert_eq!(out.validation_state, b"None".to_vec());
    assert_eq!(out.content_hash, sha2::Sha256::digest(&input).to_vec());
}

#[test]
fn wrong_algorithm_yields_unsigned() {
    let key = signing_key();
    let pk = key
        .verifying_key()
        .to_encoded_point(false)
        .as_bytes()
        .to_vec();
    let leaf = leaf_cert(&pk, "Acme", "Acme Signer");
    let claim = claim_cbor();
    // alg = -8 (EdDSA) encodes as a negative integer with argument 7
    let cose = cose_sign1(&key, 7, &leaf, &claim);
    let media = png_with_cabx(&manifest_store(&cose, &claim));
    let out = run_verify(&media, Vec::new(), vec![leaf.clone()]);
    assert!(!out.has_c2pa);
    assert_eq!(out.validation_state, b"None".to_vec());
}

#[test]
fn valid_chain_root_in_curated() {
    let key = signing_key();
    let pk = key
        .verifying_key()
        .to_encoded_point(false)
        .as_bytes()
        .to_vec();
    let leaf = leaf_cert(&pk, "Acme", "Acme Signer");
    let claim = claim_cbor();
    let cose = cose_sign1(&key, 6, &leaf, &claim); // alg = -7 (ES256)
    let media = png_with_cabx(&manifest_store(&cose, &claim));
    let out = run_verify(&media, Vec::new(), vec![leaf.clone()]);
    assert!(out.has_c2pa);
    assert_eq!(out.trust_list_match, b"curated".to_vec());
    assert_eq!(out.validation_state, b"Verified".to_vec());
    assert_eq!(out.issuer, b"Acme".to_vec());
    assert_eq!(out.common_name, b"Acme Signer".to_vec());
    assert_eq!(out.software_agent, b"TestTool/1.0".to_vec());
    assert_eq!(
        out.digital_source_type,
        b"http://cv.iptc.org/newscodes/digitalsourcetype/trainedAlgorithmicMedia".to_vec()
    );
    assert_eq!(out.signing_time, b"2024-01-02T03:04:05Z".to_vec());
    let fp = hex::encode(sha2::Sha256::digest(&leaf));
    assert_eq!(out.cert_fingerprint, fp.as_bytes().to_vec());
}

#[test]
fn valid_chain_root_absent_from_both() {
    let key = signing_key();
    let pk = key
        .verifying_key()
        .to_encoded_point(false)
        .as_bytes()
        .to_vec();
    let leaf = leaf_cert(&pk, "Acme", "Acme Signer");
    let claim = claim_cbor();
    let cose = cose_sign1(&key, 6, &leaf, &claim);
    let media = png_with_cabx(&manifest_store(&cose, &claim));
    let out = run_verify(&media, Vec::new(), Vec::new());
    assert!(out.has_c2pa);
    assert_eq!(out.trust_list_match, b"untrusted".to_vec());
    assert_eq!(out.validation_state, b"SignatureOnly".to_vec());
}

#[test]
fn official_wins_when_root_in_both() {
    let key = signing_key();
    let pk = key
        .verifying_key()
        .to_encoded_point(false)
        .as_bytes()
        .to_vec();
    let leaf = leaf_cert(&pk, "Acme", "Acme Signer");
    let claim = claim_cbor();
    let cose = cose_sign1(&key, 6, &leaf, &claim);
    let media = png_with_cabx(&manifest_store(&cose, &claim));
    let out = run_verify(&media, vec![leaf.clone()], vec![leaf.clone()]);
    assert_eq!(out.trust_list_match, b"official".to_vec());
    assert_eq!(out.validation_state, b"Verified".to_vec());
}

#[test]
fn tampered_claim_fails_signature() {
    let key = signing_key();
    let pk = key
        .verifying_key()
        .to_encoded_point(false)
        .as_bytes()
        .to_vec();
    let leaf = leaf_cert(&pk, "Acme", "Acme Signer");
    let claim = claim_cbor();
    let cose = cose_sign1(&key, 6, &leaf, &claim);
    let other_claim = cbor_map(&[(cbor_text("claim_generator"), cbor_text("EvilTool/6.66"))]);
    let media = png_with_cabx(&manifest_store(&cose, &other_claim));
    let out = run_verify(&media, Vec::new(), vec![leaf.clone()]);
    assert!(!out.has_c2pa);
    assert_eq!(out.validation_state, b"None".to_vec());
    assert_eq!(out.software_agent, Vec::<u8>::new());
}

#[test]
fn jpeg_fragments_reassemble_by_sequence_number() {
    // two APP11 fragments of the same instance, stored Z=2 then Z=1
    let frag = |en: u16, z: u32, payload: &[u8]| -> Vec<u8> {
        let mut seg = Vec::new();
        seg.extend_from_slice(&[0xFF, 0xEB]);
        let lp = 2 + 2 + 2 + 4 + payload.len() as u16;
        seg.extend_from_slice(&lp.to_be_bytes());
        seg.extend_from_slice(b"JP");
        seg.extend_from_slice(&en.to_be_bytes());
        seg.extend_from_slice(&z.to_be_bytes());
        seg.extend_from_slice(payload);
        seg
    };
    let mut media = vec![0xFF, 0xD8, 0xFF, 0xE0, 0x00, 0x02]; // SOI + empty APP0
    media.extend_from_slice(&frag(1, 2, b"WORLD"));
    media.extend_from_slice(&frag(1, 1, b"HELLO-"));
    media.extend_from_slice(&[0xFF, 0xD9]); // EOI
    let payload = provenance::jpeg::extract_c2pa_from_jpeg(&media).unwrap();
    assert_eq!(payload, b"HELLO-WORLD".to_vec());
}

#[test]
fn jpeg_lowest_instance_number_wins() {
    let frag = |en: u16, z: u32, payload: &[u8]| -> Vec<u8> {
        let mut seg = Vec::new();
        seg.extend_from_slice(&[0xFF, 0xEB]);
        let lp = 10 + payload.len() as u16;
        seg.extend_from_slice(&lp.to_be_bytes());
        seg.extend_from_slice(b"JP");
        seg.extend_from_slice(&en.to_be_bytes());
        seg.extend_from_slice(&z.to_be_bytes());
        seg.extend_from_slice(payload);
        seg
    };
    let mut media = vec![0xFF, 0xD8, 0xFF, 0xE0, 0x00, 0x02];
    media.extend_from_slice(&frag(5, 1, b"OTHER"));
    media.extend_from_slice(&frag(2, 1, b"MAIN"));
    media.extend_from_slice(&[0xFF, 0xD9]);
    let payload = provenance::jpeg::extract_c2pa_from_jpeg(&media).unwrap();
    assert_eq!(payload, b"MAIN".to_vec());
}

#[test]
fn bmff_uuid_box_extraction() {
    let mut content = vec![
        0xd8, 0xfe, 0xc3, 0xd6, 0x1b, 0x0e, 0x48, 0x3c, 0x92, 0x97, 0x58, 0x28, 0x87, 0x7e,
        0xc4, 0x81,
    ];
    content.extend_from_slice(&[0, 0, 0, 0]); // FullBox header
    content.extend_from_slice(b"manifest\0");
    content.extend_from_slice(&[0u8; 8]); // aux offset
    content.extend_from_slice(b"JUMBF-PAYLOAD");
    let uuid_box = jbox(b"uuid", &content);
    let ftyp = jbox(b"ftyp", b"isom");
    let mut media = ftyp;
    media.extend_from_slice(&uuid_box);
    let got = provenance::dissect::extract_c2pa_from_bmff(&media).unwrap();
    assert_eq!(got, b"JUMBF-PAYLOAD".to_vec());
    assert!(provenance::dissect::is_bmff(&media));
}

#[test]
fn verdict_is_deterministic_across_runs() {
    let key = signing_key();
    let pk = key
        .verifying_key()
        .to_encoded_point(false)
        .as_bytes()
        .to_vec();
    let leaf = leaf_cert(&pk, "Acme", "Acme Signer");
    let claim = claim_cbor();
    let cose = cose_sign1(&key, 6, &leaf, &claim);
    let media = png_with_cabx(&manifest_store(&cose, &claim));
    let a = run_verify(&media, Vec::new(), vec![leaf.clone()]);
    let b = run_verify(&media, Vec::new(), vec![leaf.clone()]);
    let sa = provenance::codec::serialize_public_outputs(&a);
    let sb = provenance::codec::serialize_public_outputs(&b);
    assert_eq!(sa, sb);
}
