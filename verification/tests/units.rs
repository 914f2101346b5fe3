//! Unit tests for the codec round trip, the text helpers, the ledger
//! rules, the instruction encodings, the identity map, and the JSON
//! property projection.

use provenance::codec;
use provenance::encode;
use provenance::hexes;
use provenance::identity;
use provenance::inspect;
use provenance::ledger;
use provenance::pipeline;
use provenance::props;
use provenance::utf8;

fn sample_outputs() -> pipeline::PublicOutputs {
    pipeline::PublicOutputs {
        content_hash: vec![0xAB; 32],
        has_c2pa: true,
        trust_list_match: b"curated".to_vec(),
        validation_state: b"Verified".to_vec(),
        digital_source_type: b"http://example/source".to_vec(),
        issuer: b"Acme".to_vec(),
        common_name: b"Acme Signer".to_vec(),
        software_agent: b"Tool/2".to_vec(),
        signing_time: b"2024-05-06T07:08:09Z".to_vec(),
        cert_fingerprint: b"00ff".to_vec(),
    }
}

#[test]
fn outputs_roundtrip_bit_exact() {
    let o = sample_outputs();
    let bytes = codec::serialize_public_outputs(&o);
    // layout: 32-byte hash, flag, then 8 fields with 8-byte LE lengths
    assert_eq!(&bytes[0..32], &[0xAB; 32]);
    assert_eq!(bytes[32], 1);
    assert_eq!(&bytes[33..41], &7u64.to_le_bytes());
    assert_eq!(&bytes[41..48], b"curated");
    let back = codec::parse_public_outputs(&bytes).unwrap();
    assert_eq!(back.content_hash, o.content_hash);
    assert_eq!(back.has_c2pa, o.has_c2pa);
    assert_eq!(back.trust_list_match, o.trust_list_match);
    assert_eq!(back.validation_state, o.validation_state);
    assert_eq!(back.digital_source_type, o.digital_source_type);
    assert_eq!(back.issuer, o.issuer);
    assert_eq!(back.common_name, o.common_name);
    assert_eq!(back.software_agent, o.software_agent);
    assert_eq!(back.signing_time, o.signing_time);
    assert_eq!(back.cert_fingerprint, o.cert_fingerprint);
}

#[test]
fn outputs_parse_rejects_truncation() {
    let o = sample_outputs();
    let bytes = codec::serialize_public_outputs(&o);
    assert!(codec::parse_public_outputs(&bytes[..bytes.len() - 1]).is_none());
    assert!(codec::parse_public_outputs(&bytes[..32]).is_none());
}

#[test]
fn hex_matches_reference() {
    let data = [0x00u8, 0x01, 0x7F, 0x80, 0xFF, 0xAB];
    assert_eq!(hexes::hex_lower(&data), hex::encode(data).into_bytes());
    assert_eq!(inspect::hex_string(&data), b"00 01 7f 80 ff ab".to_vec());
    let uuid = [
        0xd8u8, 0xfe, 0xc3, 0xd6, 0x1b, 0x0e, 0x48, 0x3c, 0x92, 0x97, 0x58, 0x28, 0x87, 0x7e,
        0xc4, 0x81,
    ];
    assert_eq!(
        inspect::format_uuid(&uuid),
        b"d8fec3d6-1b0e-483c-9297-5828877ec481".to_vec()
    );
}

#[test]
fn utf8_lossy_matches_std() {
    let cases: Vec<Vec<u8>> = vec![
        b"plain ascii".to_vec(),
        "snowman \u{2603} ok".as_bytes().to_vec(),
        vec![0xFF, 0x61, 0x62],
        vec![0xC3],
        vec![0xE2, 0x82],
        vec![0xE2, 0x82, 0xAC, 0x80],
        vec![0xF0, 0x9F, 0x92, 0x96, 0xF0, 0x9F],
        vec![0xED, 0xA0, 0x80],
        vec![0xC0, 0xAF],
        vec![0xF4, 0x90, 0x80, 0x80],
    ];
    for c in cases {
        let got = utf8::utf8_lossy(&c);
        let want = String::from_utf8_lossy(&c).into_owned().into_bytes();
        assert_eq!(got, want, "lossy mismatch for {:?}", c);
        assert_eq!(
            utf8::is_valid_utf8(&c),
            std::str::from_utf8(&c).is_ok(),
            "validity mismatch for {:?}",
            c
        );
    }
}

#[test]
fn read_null_terminated_splits() {
    let (s, used) = inspect::read_null_terminated(b"hello\0rest");
    assert_eq!(s, b"hello".to_vec());
    assert_eq!(used, 6);
    let (s2, used2) = inspect::read_null_terminated(b"no-null");
    assert_eq!(s2, b"no-null".to_vec());
    assert_eq!(used2, 7);
}

#[test]
fn ledger_duplicate_reported_once() {
    let authority = vec![9u8; 32];
    let mut l = ledger::AttestationLedger::new(authority.clone());
    let o = sample_outputs();
    let zero_wallet = vec![0u8; 32];
    let no_instr: Vec<Vec<u8>> = Vec::new();
    let r1 = l.submit_attestation(
        &o,
        b"example.com".to_vec(),
        vec![1; 32],
        zero_wallet.clone(),
        b"v1".to_vec(),
        b"tb".to_vec(),
        &authority,
        1700000000,
        255,
        &no_instr,
    );
    assert!(r1.is_ok());
    let r2 = l.submit_attestation(
        &o,
        b"example.com".to_vec(),
        vec![1; 32],
        zero_wallet.clone(),
        b"v1".to_vec(),
        b"tb".to_vec(),
        &authority,
        1700000001,
        255,
        &no_instr,
    );
    assert_eq!(r2, Err(ledger::ProvenanceError::DuplicateRecord));
    assert_eq!(l.records.len(), 1);
    assert!(l.lookup(&o.content_hash).is_some());
}

#[test]
fn ledger_rejects_wrong_authority_and_long_fields() {
    let authority = vec![9u8; 32];
    let mut l = ledger::AttestationLedger::new(authority.clone());
    let o = sample_outputs();
    let zero_wallet = vec![0u8; 32];
    let no_instr: Vec<Vec<u8>> = Vec::new();
    let other = vec![8u8; 32];
    let r = l.submit_attestation(
        &o,
        b"example.com".to_vec(),
        vec![1; 32],
        zero_wallet.clone(),
        b"v1".to_vec(),
        b"tb".to_vec(),
        &other,
        0,
        0,
        &no_instr,
    );
    assert_eq!(r, Err(ledger::ProvenanceError::Unauthorized));
    let mut long = sample_outputs();
    long.issuer = vec![0x41; 129];
    let r2 = l.submit_attestation(
        &long,
        b"example.com".to_vec(),
        vec![1; 32],
        zero_wallet,
        b"v1".to_vec(),
        b"tb".to_vec(),
        &authority,
        0,
        0,
        &no_instr,
    );
    assert_eq!(r2, Err(ledger::ProvenanceError::StringTooLong));
    assert_eq!(l.records.len(), 0);
}

#[test]
fn ledger_submit_proof_parses_committed_bytes() {
    let authority = vec![9u8; 32];
    let mut l = ledger::AttestationLedger::new(authority.clone());
    let o = sample_outputs();
    let bytes = codec::serialize_public_outputs(&o);
    let zero_wallet = vec![0u8; 32];
    let no_instr: Vec<Vec<u8>> = Vec::new();
    let bad = l.submit_proof(
        false,
        &bytes,
        &o.content_hash,
        Vec::new(),
        vec![0; 32],
        zero_wallet.clone(),
        Vec::new(),
        Vec::new(),
        &authority,
        5,
        0,
        &no_instr,
    );
    assert_eq!(bad, Err(ledger::ProvenanceError::ProofVerificationFailed));
    let mismatch = l.submit_proof(
        true,
        &bytes,
        &vec![0u8; 32],
        Vec::new(),
        vec![0; 32],
        zero_wallet.clone(),
        Vec::new(),
        Vec::new(),
        &authority,
        5,
        0,
        &no_instr,
    );
    assert_eq!(mismatch, Err(ledger::ProvenanceError::ContentHashMismatch));
    let ok = l.submit_proof(
        true,
        &bytes,
        &o.content_hash,
        Vec::new(),
        vec![0; 32],
        zero_wallet,
        Vec::new(),
        Vec::new(),
        &authority,
        5,
        0,
        &no_instr,
    );
    assert!(ok.is_ok());
    assert_eq!(l.records[0].proof_type, b"zk_groth16".to_vec());
    assert_eq!(l.records[0].issuer, o.issuer);
}

#[test]
fn wallet_message_and_signature_scan() {
    let hash = vec![0x5Au8; 32];
    let hex64 = hex::encode(&hash);
    let mut msg = b"R3L: attest ".to_vec();
    msg.extend_from_slice(hex64.as_bytes());
    assert!(ledger::verify_wallet_message(&msg, &hash));
    let mut wrong = msg.clone();
    wrong[0] = b'X';
    assert!(!ledger::verify_wallet_message(&wrong, &hash));

    let wallet = vec![3u8; 32];
    let mut data = vec![0u8; 16];
    data.extend_from_slice(&[0x44; 64]); // signature
    data.extend_from_slice(&wallet);
    data.extend_from_slice(&msg);
    let instrs = vec![vec![1, 2, 3], data];
    let sig = ledger::verify_wallet_sig(&instrs, &wallet, &hash).unwrap();
    assert_eq!(sig, vec![0x44; 64]);
    let other_wallet = vec![4u8; 32];
    assert_eq!(
        ledger::verify_wallet_sig(&instrs, &other_wallet, &hash),
        Err(ledger::ProvenanceError::WalletPubkeyMismatch)
    );
}

#[test]
fn attestation_instruction_encoding() {
    let hash = vec![0x11u8; 32];
    let data = encode::encode_attestation_data(
        &hash,
        true,
        &b"official".to_vec(),
        &b"Verified".to_vec(),
        &b"".to_vec(),
        &b"Acme".to_vec(),
        &b"CN".to_vec(),
        &b"Tool".to_vec(),
        &b"now".to_vec(),
        &b"fp".to_vec(),
    );
    let mut want = vec![238u8, 220, 255, 105, 183, 211, 40, 83];
    want.extend_from_slice(&hash);
    want.push(1);
    for f in [
        b"official".as_slice(),
        b"Verified",
        b"",
        b"Acme",
        b"CN",
        b"Tool",
        b"now",
        b"fp",
    ] {
        want.extend_from_slice(&(f.len() as u32).to_le_bytes());
        want.extend_from_slice(f);
    }
    assert_eq!(data, want);
}

#[test]
fn identity_instruction_encoding() {
    let hash = vec![0x22u8; 32];
    let email_hash = vec![0x33u8; 32];
    let data = encode::encode_identity_data(&hash, &b"example.com".to_vec(), &email_hash);
    let mut want = vec![72u8, 233, 38, 193, 138, 137, 49, 75];
    want.extend_from_slice(&hash);
    want.extend_from_slice(&11u32.to_le_bytes());
    want.extend_from_slice(b"example.com");
    want.extend_from_slice(&email_hash);
    assert_eq!(data, want);
}

#[test]
fn identity_flow_start_verify_attest() {
    let mut reg = identity::IdentityRegistry::new();
    let token = b"tok-1".to_vec();
    let d = reg.start(
        token.clone(),
        b"User@Example.COM".to_vec(),
        vec![1; 32],
        1000,
    );
    assert_eq!(d, Some(b"example.com".to_vec()));
    // invalid addresses are rejected
    assert_eq!(reg.start(b"tok-2".to_vec(), b"nodomain".to_vec(), vec![2; 32], 1000), None);
    assert_eq!(reg.start(b"tok-3".to_vec(), b"a@io".to_vec(), vec![2; 32], 1000), None);
    // not yet verified
    assert_eq!(
        reg.attest_identity(&token, 1100),
        Err(identity::IdentityError::NotVerified)
    );
    let v = reg.verify_email(&token, 1200);
    assert_eq!(v, Ok(b"example.com".to_vec()));
    let st = reg.status(&token, 1300).unwrap();
    assert!(st.verified && !st.expired);
    let (email, domain, hash) = reg.attest_identity(&token, 1400).unwrap();
    assert_eq!(email, b"User@Example.COM".to_vec());
    assert_eq!(domain, b"example.com".to_vec());
    assert_eq!(hash, vec![1; 32]);
    // past the expiry window
    assert_eq!(
        reg.attest_identity(&token, 1000 + 1801),
        Err(identity::IdentityError::Expired)
    );
    assert_eq!(
        reg.verify_email(&b"missing".to_vec(), 1200),
        Err(identity::IdentityError::NotFound)
    );
}

#[test]
fn identity_start_prunes_expired_entries() {
    let mut reg = identity::IdentityRegistry::new();
    reg.start(b"old".to_vec(), b"a@b.co".to_vec(), vec![1; 32], 1000);
    reg.start(b"new".to_vec(), b"c@d.co".to_vec(), vec![2; 32], 5000);
    assert!(reg.status(&b"old".to_vec(), 5000).is_none());
    assert!(reg.status(&b"new".to_vec(), 5000).is_some());
}

#[test]
fn extract_cn_from_dn_string() {
    assert_eq!(
        props::extract_cn(b"CN=Foo, O=Bar"),
        Some(b"Foo".to_vec())
    );
    assert_eq!(
        props::extract_cn(b"O=Bar,  CN=Deep Name , C=US"),
        Some(b"Deep Name".to_vec())
    );
    assert_eq!(props::extract_cn(b"O=Bar, C=US"), None);
}

fn jtext(s: &str) -> props::JsonValue {
    props::JsonValue::Text(s.as_bytes().to_vec())
}

fn jobj(fields: Vec<(&str, props::JsonValue)>) -> props::JsonValue {
    props::JsonValue::Object(
        fields
            .into_iter()
            .map(|(k, v)| (k.as_bytes().to_vec(), v))
            .collect(),
    )
}

#[test]
fn extract_props_reads_active_manifest() {
    let action = jobj(vec![
        ("action", jtext("c2pa.created")),
        ("softwareAgent", jtext("Tool/3")),
        ("digitalSourceType", jtext("http://src")),
    ]);
    let assertion = jobj(vec![
        ("label", jtext("c2pa.actions")),
        ("data", jobj(vec![("actions", props::JsonValue::Array(vec![action]))])),
    ]);
    let manifest = jobj(vec![
        ("title", jtext("My Image")),
        ("format", jtext("image/png")),
        ("claim_generator", jtext("Gen/1")),
        (
            "signature_info",
            jobj(vec![
                ("issuer", jtext("CN=Signer, O=Acme")),
                ("time", jtext("2024")),
                ("alg", jtext("es256")),
            ]),
        ),
        ("assertions", props::JsonValue::Array(vec![assertion])),
    ]);
    let doc = jobj(vec![
        ("active_manifest", jtext("m1")),
        ("manifests", jobj(vec![("m1", manifest)])),
    ]);
    let p = props::extract_props(&doc);
    assert_eq!(p.title, Some(b"My Image".to_vec()));
    assert_eq!(p.format, Some(b"image/png".to_vec()));
    assert_eq!(p.claim_generator, Some(b"Gen/1".to_vec()));
    assert_eq!(p.issuer, Some(b"CN=Signer, O=Acme".to_vec()));
    // the common name falls back to the issuer string
    assert_eq!(p.common_name, Some(b"Signer".to_vec()));
    assert_eq!(p.software_agent, Some(b"Tool/3".to_vec()));
    assert_eq!(p.digital_source_type, Some(b"http://src".to_vec()));
    assert_eq!(p.signing_time, Some(b"2024".to_vec()));
    assert_eq!(p.sig_algorithm, Some(b"es256".to_vec()));
}

#[test]
fn extract_props_without_active_manifest_is_empty() {
    let doc = jobj(vec![("manifests", jobj(vec![]))]);
    let p = props::extract_props(&doc);
    assert!(p.title.is_none());
    assert!(p.issuer.is_none());
    assert!(p.software_agent.is_none());
}

#[test]
fn claim_generator_v2_preferred_over_v1() {
    // v2: claim_generator_info is a map with a name
    let claim_v2 = {
        let mut m = Vec::new();
        m.push(0xA2u8); // map(2)
        m.extend_from_slice(&[0x74]); // text(20)
        m.extend_from_slice(b"claim_generator_info");
        m.push(0xA1); // map(1)
        m.extend_from_slice(&[0x64]);
        m.extend_from_slice(b"name");
        m.extend_from_slice(&[0x62]);
        m.extend_from_slice(b"V2");
        m.extend_from_slice(&[0x6F]); // text(15)
        m.extend_from_slice(b"claim_generator");
        m.extend_from_slice(&[0x62]);
        m.extend_from_slice(b"V1");
        m
    };
    assert_eq!(provenance::claim::extract_claim_generator(&claim_v2), b"V2".to_vec());
    let claim_v1 = {
        let mut m = Vec::new();
        m.push(0xA1u8);
        m.extend_from_slice(&[0x6F]);
        m.extend_from_slice(b"claim_generator");
        m.extend_from_slice(&[0x62]);
        m.extend_from_slice(b"V1");
        m
    };
    assert_eq!(provenance::claim::extract_claim_generator(&claim_v1), b"V1".to_vec());
    assert_eq!(provenance::claim::extract_claim_generator(&[]), Vec::<u8>::new());
}

#[test]
fn listing_sorts_newest_first() {
    let authority = vec![9u8; 32];
    let mut l = ledger::AttestationLedger::new(authority.clone());
    let zero_wallet = vec![0u8; 32];
    let no_instr: Vec<Vec<u8>> = Vec::new();
    for (i, ts) in [(1u8, 100i64), (2, 300), (3, 200)] {
        let mut o = sample_outputs();
        o.content_hash = vec![i; 32];
        let r = l.submit_attestation(
            &o,
            Vec::new(),
            vec![0; 32],
            zero_wallet.clone(),
            Vec::new(),
            Vec::new(),
            &authority,
            ts,
            0,
            &no_instr,
        );
        assert!(r.is_ok());
    }
    let items = provenance::api::list_attestations(&l.records);
    let ts: Vec<i64> = items.iter().map(|x| x.timestamp).collect();
    assert_eq!(ts, vec![300, 200, 100]);
    assert_eq!(items[0].kind, b"c2pa".to_vec());
    assert_eq!(items[0].content_hash, hex::encode(vec![2u8; 32]).into_bytes());
}

#[test]
fn email_domain_validation() {
    assert_eq!(
        identity::email_domain(&b"a@Example.Org".to_vec()),
        Some(b"example.org".to_vec())
    );
    assert_eq!(identity::email_domain(&b"no-at-sign".to_vec()), None);
    assert_eq!(identity::email_domain(&b"x@nodot".to_vec()), None);
    assert_eq!(identity::email_domain(&b"x@.c".to_vec()), None);
    assert_eq!(
        identity::email_domain(&b"x@a.b".to_vec()),
        Some(b"a.b".to_vec())
    );
}

#[test]
fn store_walkers_find_claim() {
    // a store with one manifest holding a claim cbor box
    let claim_payload = vec![0xA0u8]; // empty map
    let claim_uuid = [
        0x63u8, 0x32, 0x63, 0x6c, 0x00, 0x11, 0x00, 0x10, 0x80, 0x00, 0x00, 0xaa, 0x00, 0x38,
        0x9b, 0x71,
    ];
    let mut jumd_content = claim_uuid.to_vec();
    jumd_content.push(0x03);
    jumd_content.extend_from_slice(b"c2pa.claim\0");
    let jumd_box = {
        let mut v = (8 + jumd_content.len() as u32).to_be_bytes().to_vec();
        v.extend_from_slice(b"jumd");
        v.extend_from_slice(&jumd_content);
        v
    };
    let cbor_box = {
        let mut v = (8 + claim_payload.len() as u32).to_be_bytes().to_vec();
        v.extend_from_slice(b"cbor");
        v.extend_from_slice(&claim_payload);
        v
    };
    let claim_jumb = {
        let mut inner = jumd_box.clone();
        inner.extend_from_slice(&cbor_box);
        let mut v = (8 + inner.len() as u32).to_be_bytes().to_vec();
        v.extend_from_slice(b"jumb");
        v.extend_from_slice(&inner);
        v
    };
    let manifest = {
        let mut v = (8 + claim_jumb.len() as u32).to_be_bytes().to_vec();
        v.extend_from_slice(b"jumb");
        v.extend_from_slice(&claim_jumb);
        v
    };
    let store = {
        let mut v = (8 + manifest.len() as u32).to_be_bytes().to_vec();
        v.extend_from_slice(b"jumb");
        v.extend_from_slice(&manifest);
        v
    };
    let content = inspect::skip_to_store_content(&store).unwrap();
    let manifests = inspect::find_manifests(&content);
    assert_eq!(manifests.len(), 1);
    assert!(inspect::is_claim_box(&claim_jumb[8..]));
    let got = inspect::find_claim_cbor(&manifests[0]).unwrap();
    assert_eq!(got, claim_payload);
}
