//! The endpoint-facing shapes: the shared application state, the
//! attestation lookup response, the listing with its newest-first
//! order, and the submit request and reply.

use vstd::prelude::*;
use crate::identity::IdentityRegistry;
use crate::ledger::Attestation;
use crate::hexes::{spec_hex, hex_lower};
use crate::bytes::vec_clone;

verus! {

/// Shared application state: the operator paths and endpoints, and
/// the in-memory verification map.
pub struct AppState {
    pub trust_dir: Vec<u8>,
    pub prover_dir: Vec<u8>,
    pub rpc_url: Vec<u8>,
    pub keypair_path: Vec<u8>,
    pub program_id: Vec<u8>,
    pub verifications: IdentityRegistry,
}

/// One attestation, as a lookup reports it: the hashes in lowercase
/// hex, the fields as they are stored.
pub struct AttestationResponse {
    pub content_hash: Vec<u8>,
    pub has_c2pa: bool,
    pub trust_list_match: Vec<u8>,
    pub validation_state: Vec<u8>,
    pub digital_source_type: Vec<u8>,
    pub issuer: Vec<u8>,
    pub common_name: Vec<u8>,
    pub software_agent: Vec<u8>,
    pub signing_time: Vec<u8>,
    pub cert_fingerprint: Vec<u8>,
    pub submitted_by: Vec<u8>,
    pub timestamp: i64,
    pub proof_type: Vec<u8>,
}

/// One row of the listing: empty stored fields are absent.
pub struct AttestationListItem {
    pub content_hash: Vec<u8>,
    pub proof_type: Vec<u8>,
    pub timestamp: i64,
    pub kind: Vec<u8>,
    pub issuer: Option<Vec<u8>>,
    pub trust_list_match: Option<Vec<u8>>,
    pub domain: Option<Vec<u8>>,
}

/// A submit request: the verdict fields plus the optional proof and
/// its committed bytes, both hex-decoded by the caller.
pub struct SubmitRequest {
    pub content_hash: Vec<u8>,
    pub has_c2pa: bool,
    pub trust_list_match: Vec<u8>,
    pub validation_state: Vec<u8>,
    pub digital_source_type: Vec<u8>,
    pub issuer: Vec<u8>,
    pub common_name: Vec<u8>,
    pub software_agent: Vec<u8>,
    pub signing_time: Vec<u8>,
    pub proof: Option<Vec<u8>>,
    pub public_inputs: Option<Vec<u8>>,
}

/// The reply to a submit: the transaction signature and the record
/// address.
pub struct SubmitResponse {
    pub signature: Vec<u8>,
    pub attestation_pda: Vec<u8>,
}

/// The ghost image of a listing row.
pub ghost struct GItem {
    pub content_hash: Seq<u8>,
    pub proof_type: Seq<u8>,
    pub timestamp: int,
    pub kind: Seq<u8>,
    pub issuer: Option<Seq<u8>>,
    pub trust_list_match: Option<Seq<u8>>,
    pub domain: Option<Seq<u8>>,
}

impl AttestationListItem {
    pub open spec fn view(&self) -> GItem {
        GItem {
            content_hash: self.content_hash@,
            proof_type: self.proof_type@,
            timestamp: self.timestamp as int,
            kind: self.kind@,
            issuer: crate::props::opt_view(self.issuer),
            trust_list_match: crate::props::opt_view(self.trust_list_match),
            domain: crate::props::opt_view(self.domain),
        }
    }
}

/// The ghost image of a listing.
pub open spec fn items_view(s: Seq<AttestationListItem>) -> Seq<GItem> {
    s.map(|i: int, x: AttestationListItem| x.view())
}

/// Whether a lookup response reports exactly the stored record.
pub open spec fn spec_response_matches(a: Attestation, r: AttestationResponse) -> bool {
    {
        {
            &&& r.content_hash@ == spec_hex(a.content_hash@)
            &&& r.has_c2pa == a.has_c2pa
            &&& r.trust_list_match@ == a.trust_list_match@
            &&& r.validation_state@ == a.validation_state@
            &&& r.digital_source_type@ == a.digital_source_type@
            &&& r.issuer@ == a.issuer@
            &&& r.common_name@ == a.common_name@
            &&& r.software_agent@ == a.software_agent@
            &&& r.signing_time@ == a.signing_time@
            &&& r.cert_fingerprint@ == a.cert_fingerprint@
            &&& r.submitted_by@ == a.submitted_by@
            &&& r.timestamp == a.timestamp
            &&& r.proof_type@ == a.proof_type@
        }
    }
}

/// Project a stored record into its lookup response, with the content
/// hash in lowercase hex.
pub fn attestation_response(a: &Attestation) -> (r: AttestationResponse)
    ensures
        spec_response_matches(*a, r),
{
    AttestationResponse {
        content_hash: hex_lower(a.content_hash.as_slice()),
        has_c2pa: a.has_c2pa,
        trust_list_match: vec_clone(&a.trust_list_match),
        validation_state: vec_clone(&a.validation_state),
        digital_source_type: vec_clone(&a.digital_source_type),
        issuer: vec_clone(&a.issuer),
        common_name: vec_clone(&a.common_name),
        software_agent: vec_clone(&a.software_agent),
        signing_time: vec_clone(&a.signing_time),
        cert_fingerprint: vec_clone(&a.cert_fingerprint),
        submitted_by: vec_clone(&a.submitted_by),
        timestamp: a.timestamp,
        proof_type: vec_clone(&a.proof_type),
    }
}

/// The ASCII bytes of the listing kind `c2pa`.
pub open spec fn spec_kind_c2pa() -> Seq<u8> {
    seq![0x63u8, 0x32, 0x70, 0x61]
}

/// The listing row of a stored record: empty issuer and trust label
/// become absent.
pub open spec fn spec_item_of(a: Attestation) -> GItem {
    GItem {
        content_hash: spec_hex(a.content_hash@),
        proof_type: a.proof_type@,
        timestamp: a.timestamp as int,
        kind: spec_kind_c2pa(),
        issuer: if a.issuer@.len() == 0 {
            None
        } else {
            Some(a.issuer@)
        },
        trust_list_match: if a.trust_list_match@.len() == 0 {
            None
        } else {
            Some(a.trust_list_match@)
        },
        domain: None,
    }
}

fn item_of(a: &Attestation) -> (r: AttestationListItem)
    ensures
        r.view() == spec_item_of(*a),
{
    let kind: Vec<u8> = vec![0x63, 0x32, 0x70, 0x61];
    proof {
        assert(kind@ =~= spec_kind_c2pa());
    }
    AttestationListItem {
        content_hash: hex_lower(a.content_hash.as_slice()),
        proof_type: vec_clone(&a.proof_type),
        timestamp: a.timestamp,
        kind,
        issuer: if a.issuer.len() == 0 {
            None
        } else {
            Some(vec_clone(&a.issuer))
        },
        trust_list_match: if a.trust_list_match.len() == 0 {
            None
        } else {
            Some(vec_clone(&a.trust_list_match))
        },
        domain: None,
    }
}

/// The rows of the records, in record order.
pub open spec fn spec_items_of(rs: Seq<Attestation>) -> Seq<GItem>
    decreases rs.len(),
{
    if rs.len() == 0 {
        Seq::empty()
    } else {
        spec_items_of(rs.drop_last()).push(spec_item_of(rs.last()))
    }
}

/// Insertion of a row after every row with an equal or later
/// timestamp: newest first, arrival order kept among equals.
pub open spec fn spec_insert_desc(x: GItem, s: Seq<GItem>) -> Seq<GItem>
    decreases s.len(),
{
    if s.len() == 0 {
        seq![x]
    } else if s[0].timestamp >= x.timestamp {
        seq![s[0]] + spec_insert_desc(x, s.skip(1))
    } else {
        seq![x] + s
    }
}

/// Stable sort of the rows by timestamp descending.
pub open spec fn spec_sort_desc(s: Seq<GItem>) -> Seq<GItem>
    decreases s.len(),
{
    if s.len() == 0 {
        Seq::empty()
    } else {
        spec_insert_desc(s.last(), spec_sort_desc(s.drop_last()))
    }
}

proof fn lemma_insert_desc_at(x: GItem, s: Seq<GItem>, idx: int)
    requires
        0 <= idx <= s.len(),
        forall|k: int| 0 <= k < idx ==> s[k].timestamp >= x.timestamp,
        idx < s.len() ==> s[idx].timestamp < x.timestamp,
    ensures
        spec_insert_desc(x, s) == s.insert(idx, x),
    decreases s.len(),
{
    if s.len() == 0 {
        assert(spec_insert_desc(x, s) =~= s.insert(0, x));
    } else if idx == 0 {
        assert(spec_insert_desc(x, s) =~= s.insert(0, x));
    } else {
        assert(s[0].timestamp >= x.timestamp);
        lemma_insert_desc_at(x, s.skip(1), idx - 1);
        assert(spec_insert_desc(x, s) == seq![s[0]] + s.skip(1).insert(idx - 1, x));
        assert(seq![s[0]] + s.skip(1).insert(idx - 1, x) =~= s.insert(idx, x));
    }
}

fn item_insert_desc(v: &mut Vec<AttestationListItem>, x: AttestationListItem)
    ensures
        items_view(final(v)@) == spec_insert_desc(x.view(), items_view(old(v)@)),
{
    let n = v.len();
    let mut idx: usize = 0;
    while idx < n && v[idx].timestamp >= x.timestamp
        invariant
            idx <= n == v@.len(),
            forall|k: int| 0 <= k < idx ==> v@[k].timestamp >= x.timestamp,
        decreases n - idx,
    {
        idx = idx + 1;
    }
    proof {
        assert(forall|k: int|
            0 <= k < idx ==> items_view(v@)[k].timestamp >= x.view().timestamp);
        assert(idx < v@.len() ==> items_view(v@)[idx as int].timestamp < x.view().timestamp);
        lemma_insert_desc_at(x.view(), items_view(v@), idx as int);
    }
    let ghost before = v@;
    v.insert(idx, x);
    proof {
        assert(items_view(v@) =~= items_view(before).insert(idx as int, x.view()));
    }
}

/// The listing of the records: one row each, sorted newest first.
pub open spec fn spec_list_all(rs: Seq<Attestation>) -> Seq<GItem> {
    spec_sort_desc(spec_items_of(rs))
}

/// List the stored records, newest first, arrival order kept among
/// equal timestamps.
pub fn list_attestations(records: &Vec<Attestation>) -> (r: Vec<AttestationListItem>)
    ensures
        items_view(r@) == spec_list_all(records@),
{
    let n = records.len();
    let mut out: Vec<AttestationListItem> = Vec::new();
    let mut i: usize = 0;
    while i < n
        invariant
            i <= n == records@.len(),
            items_view(out@) == spec_sort_desc(spec_items_of(records@.take(i as int))),
        decreases n - i,
    {
        proof {
            assert(records@.take(i + 1).drop_last() =~= records@.take(i as int));
            assert(records@.take(i + 1).last() == records@[i as int]);
            let pre = spec_items_of(records@.take(i as int));
            let cur = spec_items_of(records@.take(i + 1));
            assert(cur == pre.push(spec_item_of(records@[i as int])));
            assert(cur.drop_last() =~= pre);
            assert(cur.last() == spec_item_of(records@[i as int]));
        }
        let item = item_of(&records[i]);
        item_insert_desc(&mut out, item);
        i = i + 1;
    }
    proof {
        assert(records@.take(n as int) =~= records@);
    }
    out
}

} // verus!
