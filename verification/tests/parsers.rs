//! Edge cases of the format parsers: tagged and untagged COSE, the
//! two `x5chain` shapes and the protected-header fallback, `bfdb`
//! content stripping, extended and to-end box sizes, and long-form
//! DER lengths.

fn h(major: u8, val: u64) -> Vec<u8> {
    let mut v = Vec::new();
    if val < 24 {
        v.push(major << 5 | val as u8);
    } else if val < 0x100 {
        v.push(major << 5 | 24);
        v.push(val as u8);
    } else {
        v.push(major << 5 | 25);
        v.extend_from_slice(&(val as u16).to_be_bytes());
    }
    v
}

fn bstr(b: &[u8]) -> Vec<u8> {
    let mut v = h(2, b.len() as u64);
    v.extend_from_slice(b);
    v
}

fn arr(items: &[Vec<u8>]) -> Vec<u8> {
    let mut v = h(4, items.len() as u64);
    for i in items {
        v.extend_from_slice(i);
    }
    v
}

fn map(pairs: &[(Vec<u8>, Vec<u8>)]) -> Vec<u8> {
    let mut v = h(5, pairs.len() as u64);
    for (k, val) in pairs {
        v.extend_from_slice(k);
        v.extend_from_slice(val);
    }
    v
}

fn cose_untagged(unprotected: Vec<u8>, protected_content: &[u8]) -> Vec<u8> {
    arr(&[
        bstr(protected_content),
        unprotected,
        vec![0xF6],
        bstr(&[0x01; 64]),
    ])
}

#[test]
fn untagged_cose_is_accepted() {
    let protected = map(&[(h(0, 1), h(1, 6))]);
    let unprotected = map(&[(h(0, 33), bstr(b"CERT-A"))]);
    let cose = cose_untagged(unprotected, &protected);
    let chain = provenance::cose::extract_cert_chain_from_cose(&cose).unwrap();
    assert_eq!(chain, vec![b"CERT-A".to_vec()]);
}

#[test]
fn x5chain_array_keeps_order_and_skips_non_bstr() {
    let protected = map(&[(h(0, 1), h(1, 6))]);
    let unprotected = map(&[(
        h(0, 33),
        arr(&[bstr(b"LEAF"), h(0, 7), bstr(b"ROOT")]),
    )]);
    let cose = cose_untagged(unprotected, &protected);
    let chain = provenance::cose::extract_cert_chain_from_cose(&cose).unwrap();
    assert_eq!(chain, vec![b"LEAF".to_vec(), b"ROOT".to_vec()]);
}

#[test]
fn x5chain_text_label_and_protected_fallback() {
    // text label "x5chain" in the unprotected header
    let protected = map(&[(h(0, 1), h(1, 6))]);
    let mut key = h(3, 7);
    key.extend_from_slice(b"x5chain");
    let unprotected = map(&[(key, bstr(b"CERT-T"))]);
    let cose = cose_untagged(unprotected, &protected);
    let chain = provenance::cose::extract_cert_chain_from_cose(&cose).unwrap();
    assert_eq!(chain, vec![b"CERT-T".to_vec()]);

    // label only in the protected header
    let protected2 = map(&[(h(0, 1), h(1, 6)), (h(0, 33), bstr(b"CERT-P"))]);
    let cose2 = cose_untagged(map(&[]), &protected2);
    let chain2 = provenance::cose::extract_cert_chain_from_cose(&cose2).unwrap();
    assert_eq!(chain2, vec![b"CERT-P".to_vec()]);

    // no label anywhere yields an empty chain
    let cose3 = cose_untagged(map(&[]), &map(&[(h(0, 1), h(1, 6))]));
    let chain3 = provenance::cose::extract_cert_chain_from_cose(&cose3).unwrap();
    assert!(chain3.is_empty());
}

#[test]
fn cose_with_trailing_bytes_is_rejected() {
    let protected = map(&[(h(0, 1), h(1, 6))]);
    let mut cose = cose_untagged(map(&[]), &protected);
    cose.push(0x00);
    assert!(provenance::cose::extract_cert_chain_from_cose(&cose).is_none());
}

#[test]
fn wrong_tag_is_rejected() {
    let protected = map(&[(h(0, 1), h(1, 6))]);
    let inner = cose_untagged(map(&[]), &protected);
    let mut tagged = h(6, 19);
    tagged.extend_from_slice(&inner);
    assert!(provenance::cose::extract_cert_chain_from_cose(&tagged).is_none());
}

#[test]
fn bfdb_header_is_stripped() {
    // toggle 0x03: media type and file name follow, NUL terminated
    let mut data = vec![0x03u8];
    data.extend_from_slice(b"application/cbor\0");
    data.extend_from_slice(b"claim.bin\0");
    data.extend_from_slice(b"PAYLOAD");
    assert_eq!(provenance::jumbf::skip_bfdb_header(&data), b"PAYLOAD".to_vec());
    // toggle 0: nothing follows but the content
    let data2 = [&[0u8][..], b"RAW"].concat();
    assert_eq!(provenance::jumbf::skip_bfdb_header(&data2), b"RAW".to_vec());
}

#[test]
fn parse_boxes_handles_extended_and_open_sizes() {
    // a box with size == 1 and a 64-bit extended size
    let content = b"EXTENDED-CONTENT";
    let mut ext = 1u32.to_be_bytes().to_vec();
    ext.extend_from_slice(b"test");
    ext.extend_from_slice(&(16 + content.len() as u64).to_be_bytes());
    ext.extend_from_slice(content);
    // followed by a box with size == 0 running to the end
    let tail_content = b"TO-THE-END";
    let mut tail = 0u32.to_be_bytes().to_vec();
    tail.extend_from_slice(b"last");
    tail.extend_from_slice(tail_content);
    let mut data = ext;
    data.extend_from_slice(&tail);
    let boxes = provenance::jumbf::parse_boxes(&data);
    assert_eq!(boxes.len(), 2);
    assert_eq!(boxes[0].data, content.to_vec());
    assert_eq!(boxes[1].data, tail_content.to_vec());
}

#[test]
fn jumd_label_requires_toggle_bit_and_utf8() {
    let mut good = vec![0u8; 16];
    good.push(0x03);
    good.extend_from_slice(b"c2pa.claim\0");
    assert_eq!(
        provenance::jumbf::parse_jumd_label(&good),
        Some(b"c2pa.claim".to_vec())
    );
    let mut no_label = vec![0u8; 16];
    no_label.push(0x01);
    no_label.extend_from_slice(b"c2pa.claim\0");
    assert_eq!(provenance::jumbf::parse_jumd_label(&no_label), None);
    let mut bad_utf8 = vec![0u8; 16];
    bad_utf8.push(0x03);
    bad_utf8.extend_from_slice(&[0xFF, 0xFE, 0x00]);
    assert_eq!(provenance::jumbf::parse_jumd_label(&bad_utf8), None);
}

#[test]
fn claim_generator_tolerates_malformed_cbor() {
    assert_eq!(
        provenance::claim::extract_claim_generator(&[0x9F]),
        Vec::<u8>::new()
    );
    assert_eq!(
        provenance::claim::extract_claim_generator(&[0xA1, 0x61]),
        Vec::<u8>::new()
    );
}

#[test]
fn long_form_der_names_are_read() {
    let long_cn: String = std::iter::repeat('x').take(200).collect();
    let der = |tag: u8, content: &[u8]| -> Vec<u8> {
        let mut v = vec![tag];
        let n = content.len();
        if n < 0x80 {
            v.push(n as u8);
        } else if n < 0x100 {
            v.push(0x81);
            v.push(n as u8);
        } else {
            v.push(0x82);
            v.extend_from_slice(&(n as u16).to_be_bytes());
        }
        v.extend_from_slice(content);
        v
    };
    let key = p256::ecdsa::SigningKey::from_slice(&[9u8; 32]).unwrap();
    let pk = key
        .verifying_key()
        .to_encoded_point(false)
        .as_bytes()
        .to_vec();
    let name = |oid: &[u8], text: &[u8]| -> Vec<u8> {
        let atv = der(0x30, &[der(0x06, oid), der(0x0C, text)].concat());
        der(0x30, &der(0x31, &atv))
    };
    let mut bits = vec![0u8];
    bits.extend_from_slice(&pk);
    let tbs = der(
        0x30,
        &[
            der(0x02, &[1]),
            der(0x30, &[]),
            name(&[0x55, 0x04, 0x0A], b"Organization With A Fairly Long Name"),
            der(0x30, &[]),
            name(&[0x55, 0x04, 0x03], long_cn.as_bytes()),
            der(0x30, &[der(0x30, &[]), der(0x03, &bits)].concat()),
        ]
        .concat(),
    );
    let cert = der(0x30, &[tbs, der(0x30, &[]), der(0x03, &[0, 0])].concat());
    let (org, cn) = provenance::x509::extract_cert_names(&cert);
    assert_eq!(org, b"Organization With A Fairly Long Name".to_vec());
    assert_eq!(cn, long_cn.as_bytes().to_vec());
    assert_eq!(provenance::x509::leaf_pubkey(&cert), Some(pk));
}

#[test]
fn issuer_cn_fallback_when_subject_cn_empty() {
    let der = |tag: u8, content: &[u8]| -> Vec<u8> {
        let mut v = vec![tag];
        assert!(content.len() < 0x80);
        v.push(content.len() as u8);
        v.extend_from_slice(content);
        v
    };
    let name = |attrs: &[(&[u8], &[u8])]| -> Vec<u8> {
        let mut rdns = Vec::new();
        for (oid, text) in attrs {
            let atv = der(0x30, &[der(0x06, oid), der(0x0C, text)].concat());
            rdns.extend_from_slice(&der(0x31, &atv));
        }
        der(0x30, &rdns)
    };
    let mut bits = vec![0u8];
    bits.extend_from_slice(&[0x04; 65]);
    let tbs = der(
        0x30,
        &[
            der(0x02, &[1]),
            der(0x30, &[]),
            name(&[(&[0x55, 0x04, 0x0A], b"Org"), (&[0x55, 0x04, 0x03], b"IssuerCN")]),
            der(0x30, &[]),
            name(&[]),
            der(0x30, &[der(0x30, &[]), der(0x03, &bits)].concat()),
        ]
        .concat(),
    );
    let cert = der(0x30, &[tbs, der(0x30, &[]), der(0x03, &[0, 0])].concat());
    let (org, cn) = provenance::x509::extract_cert_names(&cert);
    assert_eq!(org, b"Org".to_vec());
    assert_eq!(cn, b"IssuerCN".to_vec());
}
