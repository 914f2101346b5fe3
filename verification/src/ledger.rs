//! The on-chain attestation model: one content-addressed record per
//! content hash, field bounds enforced at the write, a duplicate
//! reported as its own outcome, and the wallet-binding signature
//! checked against the canonical attest message.

use vstd::prelude::*;
use crate::pipeline::{PublicOutputs, GOutputs};
use crate::codec::{spec_parse_outputs, parse_public_outputs};
use crate::hexes::{spec_hex, hex_lower};
use crate::bytes::{sub_vec, range_eq};
use crate::jpeg::append_bytes;
use crate::pipeline::vec_eq;

verus! {

/// Max size for each string field, in bytes.
pub const MAX_STRING_LEN: usize = 128;

/// The outcomes of an attestation write that do not succeed.
#[derive(Clone, Copy, PartialEq, Eq, Structural, Debug)]
pub enum ProvenanceError {
    ProofVerificationFailed,
    InvalidPublicOutputs,
    StringTooLong,
    ContentHashMismatch,
    Unauthorized,
    DomainEmpty,
    InvalidWalletSigVerify,
    WalletPubkeyMismatch,
    DuplicateRecord,
}

/// One attestation record: the verdict, the submitter, the creation
/// timestamp, the proof kind, and the identity bindings.
pub struct Attestation {
    pub content_hash: Vec<u8>,
    pub has_c2pa: bool,
    pub trust_list_match: Vec<u8>,
    pub validation_state: Vec<u8>,
    pub digital_source_type: Vec<u8>,
    pub issuer: Vec<u8>,
    pub common_name: Vec<u8>,
    pub software_agent: Vec<u8>,
    pub signing_time: Vec<u8>,
    pub cert_fingerprint: Vec<u8>,
    pub submitted_by: Vec<u8>,
    pub timestamp: i64,
    pub bump: u8,
    pub proof_type: Vec<u8>,
    pub email_domain: Vec<u8>,
    pub email_hash: Vec<u8>,
    pub wallet: Vec<u8>,
    pub verifier_version: Vec<u8>,
    pub trust_bundle_hash: Vec<u8>,
    pub wallet_sig: Vec<u8>,
}

/// Whether every bounded field of a record is within the limit and
/// its hash is 32 bytes.
pub open spec fn spec_att_wf(a: Attestation) -> bool {
    &&& a.content_hash@.len() == 32
    &&& a.trust_list_match@.len() <= MAX_STRING_LEN
    &&& a.validation_state@.len() <= MAX_STRING_LEN
    &&& a.digital_source_type@.len() <= MAX_STRING_LEN
    &&& a.issuer@.len() <= MAX_STRING_LEN
    &&& a.common_name@.len() <= MAX_STRING_LEN
    &&& a.software_agent@.len() <= MAX_STRING_LEN
    &&& a.signing_time@.len() <= MAX_STRING_LEN
    &&& a.cert_fingerprint@.len() <= MAX_STRING_LEN
    &&& a.email_domain@.len() <= MAX_STRING_LEN
    &&& a.verifier_version@.len() <= MAX_STRING_LEN
    &&& a.trust_bundle_hash@.len() <= MAX_STRING_LEN
}

/// Whether a record for `h` exists.
pub open spec fn spec_ledger_has(rs: Seq<Attestation>, h: Seq<u8>) -> bool {
    exists|i: int| 0 <= i < rs.len() && rs[i].content_hash@ == h
}

/// Whether the verdict fields and the identity bindings fit the
/// record's bounds.
pub open spec fn spec_lens_ok(
    o: GOutputs,
    email_domain: Seq<u8>,
    verifier_version: Seq<u8>,
    trust_bundle_hash: Seq<u8>,
) -> bool {
    &&& o.trust_list_match.len() <= MAX_STRING_LEN
    &&& o.validation_state.len() <= MAX_STRING_LEN
    &&& o.digital_source_type.len() <= MAX_STRING_LEN
    &&& o.issuer.len() <= MAX_STRING_LEN
    &&& o.common_name.len() <= MAX_STRING_LEN
    &&& o.software_agent.len() <= MAX_STRING_LEN
    &&& o.signing_time.len() <= MAX_STRING_LEN
    &&& o.cert_fingerprint.len() <= MAX_STRING_LEN
    &&& email_domain.len() <= MAX_STRING_LEN
    &&& verifier_version.len() <= MAX_STRING_LEN
    &&& trust_bundle_hash.len() <= MAX_STRING_LEN
}

/// The ASCII bytes of the message prefix `R3L: attest `.
pub open spec fn spec_wallet_prefix() -> Seq<u8> {
    seq![0x52u8, 0x33, 0x4C, 0x3A, 0x20, 0x61, 0x74, 0x74, 0x65, 0x73, 0x74, 0x20]
}

fn wallet_prefix() -> (r: Vec<u8>)
    ensures
        r@ == spec_wallet_prefix(),
{
    let mut v: Vec<u8> = Vec::new();
    v.push(0x52);
    v.push(0x33);
    v.push(0x4C);
    v.push(0x3A);
    v.push(0x20);
    v.push(0x61);
    v.push(0x74);
    v.push(0x74);
    v.push(0x65);
    v.push(0x73);
    v.push(0x74);
    v.push(0x20);
    proof {
        assert(v@ =~= spec_wallet_prefix());
    }
    v
}

/// The canonical wallet-binding message for a content hash: the
/// prefix followed by the lowercase hex of the hash.
pub open spec fn spec_wallet_message(h: Seq<u8>) -> Seq<u8> {
    spec_wallet_prefix() + spec_hex(h)
}

/// Whether a message is the canonical attest message for the hash.
pub fn verify_wallet_message(message: &[u8], content_hash: &Vec<u8>) -> (r: bool)
    requires
        content_hash@.len() == 32,
    ensures
        r == (message@ == spec_wallet_message(content_hash@)),
{
    let prefix = wallet_prefix();
    let hex = hex_lower(content_hash.as_slice());
    proof {
        crate::hexes::lemma_spec_hex_len(content_hash@);
    }
    let mut expected = prefix;
    append_bytes(&mut expected, &hex);
    if message.len() != expected.len() {
        proof {
            assert(message@ != spec_wallet_message(content_hash@));
        }
        return false;
    }
    let r = range_eq(message, 0, expected.as_slice());
    proof {
        if r {
            assert(message@.subrange(0, expected@.len() as int) =~= message@);
        } else {
            assert(message@.subrange(0, message@.len() as int) =~= message@);
        }
    }
    r
}

/// The wallet-signature scan over the Ed25519-program instruction
/// data: too-short data is passed over; the first long enough must
/// carry the wallet key at bytes 80..112 and the canonical message
/// from byte 112, and yields the 64-byte signature at bytes 16..80.
pub open spec fn spec_wallet_scan(
    instrs: Seq<Seq<u8>>,
    i: int,
    wallet: Seq<u8>,
    h: Seq<u8>,
) -> Result<Seq<u8>, ProvenanceError>
    decreases instrs.len() - i,
{
    if i < 0 || i >= instrs.len() {
        Err(ProvenanceError::InvalidWalletSigVerify)
    } else {
        let d = instrs[i];
        if d.len() < 112 {
            spec_wallet_scan(instrs, i + 1, wallet, h)
        } else if d.subrange(80, 112) != wallet {
            Err(ProvenanceError::WalletPubkeyMismatch)
        } else if d.skip(112) == spec_wallet_message(h) {
            Ok(d.subrange(16, 80))
        } else {
            Err(ProvenanceError::InvalidWalletSigVerify)
        }
    }
}

fn wallet_scan(instrs: &Vec<Vec<u8>>, i: usize, wallet: &Vec<u8>, h: &Vec<u8>) -> (r: Result<
    Vec<u8>,
    ProvenanceError,
>)
    requires
        h@.len() == 32,
        wallet@.len() == 32,
    ensures
        match r {
            Ok(v) => spec_wallet_scan(crate::bytes::vecs_view(instrs@), i as int, wallet@, h@)
                == Ok::<Seq<u8>, ProvenanceError>(v@),
            Err(e) => spec_wallet_scan(crate::bytes::vecs_view(instrs@), i as int, wallet@, h@)
                == Err::<Seq<u8>, ProvenanceError>(e),
        },
    decreases instrs@.len() - i,
{
    if i >= instrs.len() {
        return Err(ProvenanceError::InvalidWalletSigVerify);
    }
    let d = &instrs[i];
    proof {
        assert(d@ == crate::bytes::vecs_view(instrs@)[i as int]);
    }
    if d.len() < 112 {
        return wallet_scan(instrs, i + 1, wallet, h);
    }
    if !range_eq(d.as_slice(), 80, wallet.as_slice()) {
        proof {
            assert(d@.subrange(80, 112) != wallet@);
        }
        return Err(ProvenanceError::WalletPubkeyMismatch);
    }
    proof {
        assert(d@.subrange(80, 80 + wallet@.len() as int) == wallet@);
        assert(d@.subrange(80, 112) == wallet@);
    }
    let msg = sub_vec(d.as_slice(), 112, d.len());
    proof {
        assert(msg@ =~= d@.skip(112));
    }
    if verify_wallet_message(msg.as_slice(), h) {
        Ok(sub_vec(d.as_slice(), 16, 80))
    } else {
        Err(ProvenanceError::InvalidWalletSigVerify)
    }
}

/// Verify that one of the Ed25519-program instructions binds `wallet`
/// to the canonical attest message for `content_hash`, and return the
/// 64-byte signature it carries.
pub fn verify_wallet_sig(
    instructions: &Vec<Vec<u8>>,
    wallet: &Vec<u8>,
    content_hash: &Vec<u8>,
) -> (r: Result<Vec<u8>, ProvenanceError>)
    requires
        content_hash@.len() == 32,
        wallet@.len() == 32,
    ensures
        match r {
            Ok(v) => spec_wallet_scan(crate::bytes::vecs_view(instructions@), 0, wallet@,
                content_hash@) == Ok::<Seq<u8>, ProvenanceError>(v@),
            Err(e) => spec_wallet_scan(crate::bytes::vecs_view(instructions@), 0, wallet@,
                content_hash@) == Err::<Seq<u8>, ProvenanceError>(e),
        },
{
    wallet_scan(instructions, 0, wallet, content_hash)
}

/// Whether a 32-byte key is the all-zero default.
pub open spec fn spec_zero_key(w: Seq<u8>) -> bool {
    forall|i: int| 0 <= i < w.len() ==> w[i] == 0
}

fn is_zero_key(w: &Vec<u8>) -> (r: bool)
    ensures
        r == spec_zero_key(w@),
{
    let n = w.len();
    let mut i: usize = 0;
    while i < n
        invariant
            i <= n == w@.len(),
            forall|k: int| 0 <= k < i ==> w@[k] == 0,
        decreases n - i,
    {
        if w[i] != 0 {
            return false;
        }
        i = i + 1;
    }
    true
}

/// The content-addressed attestation store: the operator authority
/// and the records, at most one per content hash.
pub struct AttestationLedger {
    pub authority: Vec<u8>,
    pub records: Vec<Attestation>,
}

impl AttestationLedger {
    /// Every record is bounded, and no two share a content hash.
    pub open spec fn wf(&self) -> bool {
        &&& forall|i: int| 0 <= i < self.records@.len() ==> spec_att_wf(#[trigger] self.records@[i])
        &&& forall|i: int, j: int|
            0 <= i < j < self.records@.len() ==> #[trigger] self.records@[i].content_hash@
                != #[trigger] self.records@[j].content_hash@
    }

    /// An empty ledger under the given authority.
    pub fn new(authority: Vec<u8>) -> (r: AttestationLedger)
        ensures
            r.wf(),
            r.records@.len() == 0,
            r.authority@ == authority@,
    {
        AttestationLedger { authority, records: Vec::new() }
    }

    /// The index of the record for `content_hash`, if one exists.
    pub fn lookup(&self, content_hash: &Vec<u8>) -> (r: Option<usize>)
        ensures
            match r {
                Some(i) => i < self.records@.len() && self.records@[i as int].content_hash@
                    == content_hash@,
                None => !spec_ledger_has(self.records@, content_hash@),
            },
    {
        let n = self.records.len();
        let mut i: usize = 0;
        while i < n
            invariant
                i <= n == self.records@.len(),
                forall|k: int| 0 <= k < i ==> self.records@[k].content_hash@ != content_hash@,
            decreases n - i,
        {
            if vec_eq(&self.records[i].content_hash, content_hash) {
                return Some(i);
            }
            i = i + 1;
        }
        None
    }
}

/// The outcome of a trusted-verifier write: a duplicate first, then
/// the authority gate, then the field bounds, then the wallet binding
/// where a wallet is given.
pub open spec fn spec_submit_att_outcome(
    rs: Seq<Attestation>,
    o: GOutputs,
    email_domain: Seq<u8>,
    verifier_version: Seq<u8>,
    trust_bundle_hash: Seq<u8>,
    authorized: bool,
    wallet: Seq<u8>,
    instrs: Seq<Seq<u8>>,
) -> Result<(), ProvenanceError> {
    if spec_ledger_has(rs, o.content_hash) {
        Err(ProvenanceError::DuplicateRecord)
    } else if !authorized {
        Err(ProvenanceError::Unauthorized)
    } else if !spec_lens_ok(o, email_domain, verifier_version, trust_bundle_hash) {
        Err(ProvenanceError::StringTooLong)
    } else if !spec_zero_key(wallet) {
        match spec_wallet_scan(instrs, 0, wallet, o.content_hash) {
            Ok(_) => Ok(()),
            Err(e) => Err(e),
        }
    } else {
        Ok(())
    }
}

/// The ASCII bytes of the proof type `trusted_verifier`.
pub open spec fn spec_proof_type_trusted() -> Seq<u8> {
    seq![0x74u8, 0x72, 0x75, 0x73, 0x74, 0x65, 0x64, 0x5f, 0x76, 0x65, 0x72, 0x69, 0x66, 0x69,
        0x65, 0x72]
}

/// The ASCII bytes of the proof type `zk_groth16`.
pub open spec fn spec_proof_type_zk() -> Seq<u8> {
    seq![0x7au8, 0x6b, 0x5f, 0x67, 0x72, 0x6f, 0x74, 0x68, 0x31, 0x36]
}

fn proof_type_trusted() -> (r: Vec<u8>)
    ensures
        r@ == spec_proof_type_trusted(),
{
    let mut v: Vec<u8> = Vec::new();
    v.push(0x74);
    v.push(0x72);
    v.push(0x75);
    v.push(0x73);
    v.push(0x74);
    v.push(0x65);
    v.push(0x64);
    v.push(0x5f);
    v.push(0x76);
    v.push(0x65);
    v.push(0x72);
    v.push(0x69);
    v.push(0x66);
    v.push(0x69);
    v.push(0x65);
    v.push(0x72);
    proof {
        assert(v@ =~= spec_proof_type_trusted());
    }
    v
}

fn proof_type_zk() -> (r: Vec<u8>)
    ensures
        r@ == spec_proof_type_zk(),
{
    let mut v: Vec<u8> = Vec::new();
    v.push(0x7a);
    v.push(0x6b);
    v.push(0x5f);
    v.push(0x67);
    v.push(0x72);
    v.push(0x6f);
    v.push(0x74);
    v.push(0x68);
    v.push(0x31);
    v.push(0x36);
    proof {
        assert(v@ =~= spec_proof_type_zk());
    }
    v
}

impl AttestationLedger {
    /// Store an attestation as the trusted verifier: fails on a
    /// duplicate content hash, a wrong authority, an over-long field,
    /// or a bad wallet binding, and stores nothing then.
    pub fn submit_attestation(
        &mut self,
        outputs: &PublicOutputs,
        email_domain: Vec<u8>,
        email_hash: Vec<u8>,
        wallet: Vec<u8>,
        verifier_version: Vec<u8>,
        trust_bundle_hash: Vec<u8>,
        authority: &Vec<u8>,
        timestamp: i64,
        bump: u8,
        instructions: &Vec<Vec<u8>>,
    ) -> (r: Result<(), ProvenanceError>)
        requires
            old(self).wf(),
            outputs.content_hash@.len() == 32,
            wallet@.len() == 32,
        ensures
            final(self).wf(),
            final(self).authority@ == old(self).authority@,
            r == spec_submit_att_outcome(
                old(self).records@,
                outputs.view(),
                email_domain@,
                verifier_version@,
                trust_bundle_hash@,
                authority@ == old(self).authority@,
                wallet@,
                crate::bytes::vecs_view(instructions@),
            ),
            r is Err ==> final(self).records@ == old(self).records@,
            r is Ok ==> {
                &&& final(self).records@.len() == old(self).records@.len() + 1
                &&& forall|i: int|
                    0 <= i < old(self).records@.len() ==> final(self).records@[i] == old(
                        self,
                    ).records@[i]
                &&& final(self).records@.last().content_hash@ == outputs.content_hash@
                &&& final(self).records@.last().has_c2pa == outputs.has_c2pa
                &&& final(self).records@.last().trust_list_match@ == outputs.trust_list_match@
                &&& final(self).records@.last().validation_state@ == outputs.validation_state@
                &&& final(self).records@.last().digital_source_type@
                    == outputs.digital_source_type@
                &&& final(self).records@.last().issuer@ == outputs.issuer@
                &&& final(self).records@.last().common_name@ == outputs.common_name@
                &&& final(self).records@.last().software_agent@ == outputs.software_agent@
                &&& final(self).records@.last().signing_time@ == outputs.signing_time@
                &&& final(self).records@.last().cert_fingerprint@ == outputs.cert_fingerprint@
                &&& final(self).records@.last().proof_type@ == spec_proof_type_trusted()
                &&& final(self).records@.last().submitted_by@ == authority@
                &&& final(self).records@.last().timestamp == timestamp
                &&& final(self).records@.last().email_domain@ == email_domain@
                &&& final(self).records@.last().email_hash@ == email_hash@
                &&& final(self).records@.last().wallet@ == wallet@
                &&& final(self).records@.last().verifier_version@ == verifier_version@
                &&& final(self).records@.last().trust_bundle_hash@ == trust_bundle_hash@
            },
    {
        if let Some(_i) = self.lookup(&outputs.content_hash) {
            proof {
                assert(spec_ledger_has(self.records@, outputs.content_hash@));
            }
            return Err(ProvenanceError::DuplicateRecord);
        }
        if !vec_eq(authority, &self.authority) {
            return Err(ProvenanceError::Unauthorized);
        }
        if outputs.trust_list_match.len() > MAX_STRING_LEN || outputs.validation_state.len()
            > MAX_STRING_LEN || outputs.digital_source_type.len() > MAX_STRING_LEN
            || outputs.issuer.len() > MAX_STRING_LEN || outputs.common_name.len() > MAX_STRING_LEN
            || outputs.software_agent.len() > MAX_STRING_LEN || outputs.signing_time.len()
            > MAX_STRING_LEN || outputs.cert_fingerprint.len() > MAX_STRING_LEN
            || email_domain.len() > MAX_STRING_LEN || verifier_version.len() > MAX_STRING_LEN
            || trust_bundle_hash.len() > MAX_STRING_LEN {
            return Err(ProvenanceError::StringTooLong);
        }
        let wallet_sig: Vec<u8> = if !is_zero_key(&wallet) {
            match verify_wallet_sig(instructions, &wallet, &outputs.content_hash) {
                Ok(s) => s,
                Err(e) => {
                    return Err(e);
                },
            }
        } else {
            Vec::new()
        };
        let att = Attestation {
            content_hash: crate::bytes::vec_clone(&outputs.content_hash),
            has_c2pa: outputs.has_c2pa,
            trust_list_match: crate::bytes::vec_clone(&outputs.trust_list_match),
            validation_state: crate::bytes::vec_clone(&outputs.validation_state),
            digital_source_type: crate::bytes::vec_clone(&outputs.digital_source_type),
            issuer: crate::bytes::vec_clone(&outputs.issuer),
            common_name: crate::bytes::vec_clone(&outputs.common_name),
            software_agent: crate::bytes::vec_clone(&outputs.software_agent),
            signing_time: crate::bytes::vec_clone(&outputs.signing_time),
            cert_fingerprint: crate::bytes::vec_clone(&outputs.cert_fingerprint),
            submitted_by: crate::bytes::vec_clone(authority),
            timestamp,
            bump,
            proof_type: proof_type_trusted(),
            email_domain,
            email_hash,
            wallet,
            verifier_version,
            trust_bundle_hash,
            wallet_sig,
        };
        let ghost before = self.records@;
        self.records.push(att);
        proof {
            assert(self.records@.last().content_hash@ == outputs.content_hash@);
            assert forall|i: int, j: int|
                0 <= i < j < self.records@.len() implies #[trigger] self.records@[
                i].content_hash@ != #[trigger] self.records@[j].content_hash@ by {
                if j == before.len() {
                    assert(self.records@[i] == before[i]);
                } else {
                    assert(self.records@[i] == before[i] && self.records@[j] == before[j]);
                }
            }
        }
        Ok(())
    }

    /// Store an attestation from a succinct proof: the proof system's
    /// verdict is taken as given, the committed public bytes are
    /// parsed and held against the addressed content hash, and the
    /// same bounds and wallet binding apply.
    pub fn submit_proof(
        &mut self,
        proof_valid: bool,
        public_inputs: &Vec<u8>,
        content_hash: &Vec<u8>,
        email_domain: Vec<u8>,
        email_hash: Vec<u8>,
        wallet: Vec<u8>,
        verifier_version: Vec<u8>,
        trust_bundle_hash: Vec<u8>,
        submitter: &Vec<u8>,
        timestamp: i64,
        bump: u8,
        instructions: &Vec<Vec<u8>>,
    ) -> (r: Result<(), ProvenanceError>)
        requires
            old(self).wf(),
            content_hash@.len() == 32,
            wallet@.len() == 32,
        ensures
            final(self).wf(),
            final(self).authority@ == old(self).authority@,
            r == spec_submit_proof_outcome(
                old(self).records@,
                proof_valid,
                public_inputs@,
                content_hash@,
                email_domain@,
                verifier_version@,
                trust_bundle_hash@,
                wallet@,
                crate::bytes::vecs_view(instructions@),
            ),
            r is Err ==> final(self).records@ == old(self).records@,
            r is Ok ==> {
                &&& final(self).records@.len() == old(self).records@.len() + 1
                &&& forall|i: int|
                    0 <= i < old(self).records@.len() ==> final(self).records@[i] == old(
                        self,
                    ).records@[i]
                &&& final(self).records@.last().content_hash@ == content_hash@
                &&& spec_parse_outputs(public_inputs@) is Some
                &&& final(self).records@.last().has_c2pa == spec_parse_outputs(
                    public_inputs@,
                ).unwrap().has_c2pa
                &&& final(self).records@.last().trust_list_match@ == spec_parse_outputs(
                    public_inputs@,
                ).unwrap().trust_list_match
                &&& final(self).records@.last().validation_state@ == spec_parse_outputs(
                    public_inputs@,
                ).unwrap().validation_state
                &&& final(self).records@.last().issuer@ == spec_parse_outputs(
                    public_inputs@,
                ).unwrap().issuer
                &&& final(self).records@.last().cert_fingerprint@ == spec_parse_outputs(
                    public_inputs@,
                ).unwrap().cert_fingerprint
                &&& final(self).records@.last().proof_type@ == spec_proof_type_zk()
                &&& final(self).records@.last().submitted_by@ == submitter@
                &&& final(self).records@.last().timestamp == timestamp
            },
    {
        if let Some(_i) = self.lookup(content_hash) {
            proof {
                assert(spec_ledger_has(self.records@, content_hash@));
            }
            return Err(ProvenanceError::DuplicateRecord);
        }
        if !proof_valid {
            return Err(ProvenanceError::ProofVerificationFailed);
        }
        let outputs = match parse_public_outputs(public_inputs.as_slice()) {
            None => {
                return Err(ProvenanceError::InvalidPublicOutputs);
            },
            Some(o) => o,
        };
        if !vec_eq(&outputs.content_hash, content_hash) {
            return Err(ProvenanceError::ContentHashMismatch);
        }
        if outputs.trust_list_match.len() > MAX_STRING_LEN || outputs.validation_state.len()
            > MAX_STRING_LEN || outputs.digital_source_type.len() > MAX_STRING_LEN
            || outputs.issuer.len() > MAX_STRING_LEN || outputs.common_name.len() > MAX_STRING_LEN
            || outputs.software_agent.len() > MAX_STRING_LEN || outputs.signing_time.len()
            > MAX_STRING_LEN || outputs.cert_fingerprint.len() > MAX_STRING_LEN
            || email_domain.len() > MAX_STRING_LEN || verifier_version.len() > MAX_STRING_LEN
            || trust_bundle_hash.len() > MAX_STRING_LEN {
            return Err(ProvenanceError::StringTooLong);
        }
        let wallet_sig: Vec<u8> = if !is_zero_key(&wallet) {
            match verify_wallet_sig(instructions, &wallet, content_hash) {
                Ok(s) => s,
                Err(e) => {
                    return Err(e);
                },
            }
        } else {
            Vec::new()
        };
        let att = Attestation {
            content_hash: crate::bytes::vec_clone(content_hash),
            has_c2pa: outputs.has_c2pa,
            trust_list_match: outputs.trust_list_match,
            validation_state: outputs.validation_state,
            digital_source_type: outputs.digital_source_type,
            issuer: outputs.issuer,
            common_name: outputs.common_name,
            software_agent: outputs.software_agent,
            signing_time: outputs.signing_time,
            cert_fingerprint: outputs.cert_fingerprint,
            submitted_by: crate::bytes::vec_clone(submitter),
            timestamp,
            bump,
            proof_type: proof_type_zk(),
            email_domain,
            email_hash,
            wallet,
            verifier_version,
            trust_bundle_hash,
            wallet_sig,
        };
        let ghost before = self.records@;
        self.records.push(att);
        proof {
            assert(self.records@.last().content_hash@ == content_hash@);
            assert forall|i: int, j: int|
                0 <= i < j < self.records@.len() implies #[trigger] self.records@[
                i].content_hash@ != #[trigger] self.records@[j].content_hash@ by {
                if j == before.len() {
                    assert(self.records@[i] == before[i]);
                } else {
                    assert(self.records@[i] == before[i] && self.records@[j] == before[j]);
                }
            }
        }
        Ok(())
    }
}

/// The outcome of a proof-backed write: a duplicate first, then the
/// proof verdict, the parse of the committed bytes, the content-hash
/// binding, the field bounds, and the wallet binding.
pub open spec fn spec_submit_proof_outcome(
    rs: Seq<Attestation>,
    proof_valid: bool,
    public_inputs: Seq<u8>,
    content_hash: Seq<u8>,
    email_domain: Seq<u8>,
    verifier_version: Seq<u8>,
    trust_bundle_hash: Seq<u8>,
    wallet: Seq<u8>,
    instrs: Seq<Seq<u8>>,
) -> Result<(), ProvenanceError> {
    if spec_ledger_has(rs, content_hash) {
        Err(ProvenanceError::DuplicateRecord)
    } else if !proof_valid {
        Err(ProvenanceError::ProofVerificationFailed)
    } else {
        match spec_parse_outputs(public_inputs) {
            None => Err(ProvenanceError::InvalidPublicOutputs),
            Some(o) => if o.content_hash != content_hash {
                Err(ProvenanceError::ContentHashMismatch)
            } else if !spec_lens_ok(o, email_domain, verifier_version, trust_bundle_hash) {
                Err(ProvenanceError::StringTooLong)
            } else if !spec_zero_key(wallet) {
                match spec_wallet_scan(instrs, 0, wallet, content_hash) {
                    Ok(_) => Ok(()),
                    Err(e) => Err(e),
                }
            } else {
                Ok(())
            },
        }
    }
}

/// Exactly one record may exist per content hash: once one is stored,
/// a further write reports the duplicate, whatever else it carries.
pub proof fn lemma_attestation_unique(
    rs: Seq<Attestation>,
    a: Attestation,
    o: GOutputs,
    email_domain: Seq<u8>,
    verifier_version: Seq<u8>,
    trust_bundle_hash: Seq<u8>,
    authorized: bool,
    wallet: Seq<u8>,
    instrs: Seq<Seq<u8>>,
)
    requires
        a.content_hash@ == o.content_hash,
    ensures
        spec_submit_att_outcome(
            rs.push(a),
            o,
            email_domain,
            verifier_version,
            trust_bundle_hash,
            authorized,
            wallet,
            instrs,
        ) == Err::<(), ProvenanceError>(ProvenanceError::DuplicateRecord),
{
    assert(rs.push(a)[rs.len() as int].content_hash@ == o.content_hash);
}

/// Every field of every stored record is within the 128-byte bound.
pub proof fn lemma_stored_fields_bounded(l: AttestationLedger, i: int)
    requires
        l.wf(),
        0 <= i < l.records@.len(),
    ensures
        spec_att_wf(l.records@[i]),
{
}

} // verus!
