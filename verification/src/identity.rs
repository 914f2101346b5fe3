//! Email-domain identity verification: the token map with its
//! 30-minute expiry, the domain derived from an address, and the
//! responses the identity endpoints hand back.

use vstd::prelude::*;
use crate::bytes::vec_clone;

verus! {

/// Verification entries expire after 30 minutes.
pub const EXPIRY_SECS: u64 = 1800;

/// A pending email verification entry.
pub struct VerificationEntry {
    pub email: Vec<u8>,
    pub domain: Vec<u8>,
    pub content_hash: Vec<u8>,
    pub verified: bool,
    pub created_at: u64,
}

/// What the identity endpoints report when a step cannot proceed.
#[derive(Clone, Copy, PartialEq, Eq, Structural, Debug)]
pub enum IdentityError {
    NotFound,
    NotVerified,
    Expired,
}

/// The reply to starting a verification.
pub struct StartResponse {
    pub token: Vec<u8>,
    pub content_hash: Vec<u8>,
    pub domain: Vec<u8>,
    pub verification_url: Option<Vec<u8>>,
}

/// The reply to a status poll.
pub struct StatusResponse {
    pub verified: bool,
    pub domain: Vec<u8>,
    pub content_hash: Vec<u8>,
    pub expired: bool,
}

/// The request binding a verified token to an attestation.
pub struct AttestRequest {
    pub token: Vec<u8>,
}

/// The reply to an identity attestation.
pub struct IdentityAttestResponse {
    pub signature: Vec<u8>,
    pub identity_pda: Vec<u8>,
    pub content_hash: Vec<u8>,
    pub domain: Vec<u8>,
}

/// The index of the first `@` at or after `i`.
pub open spec fn spec_find_at(s: Seq<u8>, i: int) -> Option<int>
    decreases s.len() - i,
{
    if i < 0 || i >= s.len() {
        None
    } else if s[i] == 0x40 {
        Some(i)
    } else {
        spec_find_at(s, i + 1)
    }
}

/// Whether the bytes hold an ASCII dot.
pub open spec fn spec_has_dot(s: Seq<u8>) -> bool {
    exists|i: int| 0 <= i < s.len() && s[i] == 0x2E
}

/// ASCII lowercasing, byte for byte.
pub open spec fn spec_ascii_lower(s: Seq<u8>) -> Seq<u8> {
    s.map(
        |i: int, b: u8|
            if 0x41 <= b <= 0x5A {
                (b + 32) as u8
            } else {
                b
            },
    )
}

fn ascii_lower(s: &[u8]) -> (r: Vec<u8>)
    ensures
        r@ == spec_ascii_lower(s@),
{
    let n = s.len();
    let mut out: Vec<u8> = Vec::new();
    let mut i: usize = 0;
    while i < n
        invariant
            i <= n == s@.len(),
            out@ == spec_ascii_lower(s@.take(i as int)),
        decreases n - i,
    {
        let b = s[i];
        out.push(
            if 0x41 <= b && b <= 0x5A {
                b + 32
            } else {
                b
            },
        );
        proof {
            assert(out@ =~= spec_ascii_lower(s@.take(i + 1)));
        }
        i = i + 1;
    }
    proof {
        assert(s@.take(n as int) =~= s@);
    }
    out
}

/// The lowercased domain of an email address: what follows the first
/// `@`, which must hold a dot and at least three bytes.
pub open spec fn spec_email_domain(email: Seq<u8>) -> Option<Seq<u8>> {
    match spec_find_at(email, 0) {
        None => None,
        Some(k) => {
            let dom = email.skip(k + 1);
            if spec_has_dot(dom) && dom.len() >= 3 {
                Some(spec_ascii_lower(dom))
            } else {
                None
            }
        },
    }
}

fn find_at(s: &[u8], i: usize) -> (r: Option<usize>)
    ensures
        match r {
            Some(k) => spec_find_at(s@, i as int) == Some(k as int) && k < s@.len(),
            None => spec_find_at(s@, i as int) is None,
        },
    decreases s@.len() - i,
{
    if i >= s.len() {
        None
    } else if s[i] == 0x40 {
        Some(i)
    } else {
        find_at(s, i + 1)
    }
}

fn has_dot(s: &[u8]) -> (r: bool)
    ensures
        r == spec_has_dot(s@),
{
    let n = s.len();
    let mut i: usize = 0;
    while i < n
        invariant
            i <= n == s@.len(),
            forall|k: int| 0 <= k < i ==> s@[k] != 0x2E,
        decreases n - i,
    {
        if s[i] == 0x2E {
            return true;
        }
        i = i + 1;
    }
    false
}

/// The validated, lowercased domain of an email address.
pub fn email_domain(email: &Vec<u8>) -> (r: Option<Vec<u8>>)
    ensures
        match r {
            Some(v) => spec_email_domain(email@) == Some(v@),
            None => spec_email_domain(email@) is None,
        },
{
    let n = email.len();
    match find_at(email.as_slice(), 0) {
        None => None,
        Some(k) => {
            let dom = crate::bytes::sub_vec(email.as_slice(), k + 1, n);
            proof {
                assert(dom@ =~= email@.skip(k + 1));
            }
            if has_dot(dom.as_slice()) && dom.len() >= 3 {
                Some(ascii_lower(dom.as_slice()))
            } else {
                None
            }
        },
    }
}

/// Whether an entry is still inside the expiry window at `now`.
pub open spec fn spec_fresh(e: VerificationEntry, now: u64) -> bool {
    e.created_at + EXPIRY_SECS >= now
}

/// The entries kept by a pruning insert: those still fresh whose
/// token differs from the incoming one.
pub open spec fn spec_keep(
    entries: Seq<(Vec<u8>, VerificationEntry)>,
    now: u64,
    token: Seq<u8>,
) -> Seq<(Vec<u8>, VerificationEntry)>
    decreases entries.len(),
{
    if entries.len() == 0 {
        Seq::empty()
    } else {
        spec_keep(entries.drop_last(), now, token) + if spec_fresh(entries.last().1, now)
            && entries.last().0@ != token {
            seq![entries.last()]
        } else {
            Seq::empty()
        }
    }
}

/// The index of the entry under `token`, from `i` on.
pub open spec fn spec_find_token(
    entries: Seq<(Vec<u8>, VerificationEntry)>,
    i: int,
    token: Seq<u8>,
) -> Option<int>
    decreases entries.len() - i,
{
    if i < 0 || i >= entries.len() {
        None
    } else if entries[i].0@ == token {
        Some(i)
    } else {
        spec_find_token(entries, i + 1, token)
    }
}

/// The in-memory verification map, keyed by token.
pub struct IdentityRegistry {
    pub entries: Vec<(Vec<u8>, VerificationEntry)>,
}

impl IdentityRegistry {
    /// No two entries share a token.
    pub open spec fn wf(&self) -> bool {
        forall|i: int, j: int|
            0 <= i < j < self.entries@.len() ==> #[trigger] self.entries@[i].0@
                != #[trigger] self.entries@[j].0@
    }

    /// An empty registry.
    pub fn new() -> (r: IdentityRegistry)
        ensures
            r.wf(),
            r.entries@.len() == 0,
    {
        IdentityRegistry { entries: Vec::new() }
    }

    fn find(&self, token: &Vec<u8>) -> (r: Option<usize>)
        ensures
            match r {
                Some(i) => spec_find_token(self.entries@, 0, token@) == Some(i as int) && i
                    < self.entries@.len() && self.entries@[i as int].0@ == token@,
                None => spec_find_token(self.entries@, 0, token@) is None,
            },
    {
        self.find_from(token, 0)
    }

    fn find_from(&self, token: &Vec<u8>, i: usize) -> (r: Option<usize>)
        ensures
            match r {
                Some(k) => spec_find_token(self.entries@, i as int, token@) == Some(k as int) && k
                    < self.entries@.len() && self.entries@[k as int].0@ == token@,
                None => spec_find_token(self.entries@, i as int, token@) is None,
            },
        decreases self.entries@.len() - i,
    {
        if i >= self.entries.len() {
            None
        } else if crate::pipeline::vec_eq(&self.entries[i].0, token) {
            Some(i)
        } else {
            self.find_from(token, i + 1)
        }
    }

    /// Begin a verification: validate the address, prune expired
    /// entries, and store a fresh unverified entry under the token,
    /// replacing any entry the token held. Yields the domain.
    pub fn start(&mut self, token: Vec<u8>, email: Vec<u8>, content_hash: Vec<u8>, now: u64) -> (r:
        Option<Vec<u8>>)
        requires
            old(self).wf(),
        ensures
            final(self).wf(),
            match r {
                None => spec_email_domain(email@) is None && final(self).entries@ == old(
                    self,
                ).entries@,
                Some(d) => {
                    &&& spec_email_domain(email@) == Some(d@)
                    &&& final(self).entries@.len() == spec_keep(old(self).entries@, now,
                        token@).len() + 1
                    &&& final(self).entries@.drop_last() == spec_keep(old(self).entries@, now,
                        token@)
                    &&& final(self).entries@.last().0@ == token@
                    &&& final(self).entries@.last().1.email@ == email@
                    &&& final(self).entries@.last().1.domain@ == d@
                    &&& final(self).entries@.last().1.content_hash@ == content_hash@
                    &&& final(self).entries@.last().1.verified == false
                    &&& final(self).entries@.last().1.created_at == now
                },
            },
    {
        let domain = match email_domain(&email) {
            None => {
                return None;
            },
            Some(d) => d,
        };
        let ghost all = self.entries@;
        let mut kept: Vec<(Vec<u8>, VerificationEntry)> = Vec::new();
        let mut rest: Vec<(Vec<u8>, VerificationEntry)> = Vec::new();
        core::mem::swap(&mut rest, &mut self.entries);
        let ghost mut done: int = 0;
        while rest.len() > 0
            invariant
                0 <= done <= all.len(),
                rest@ == all.skip(done),
                kept@ == spec_keep(all.take(done), now, token@),
            decreases rest@.len(),
        {
            proof {
                assert(all.skip(done).len() == all.len() - done);
            }
            let ghost prev = rest@;
            let e = rest.remove(0);
            proof {
                assert(e == all.skip(done)[0]);
                assert(all.skip(done)[0] == all[done]);
                assert(rest@ =~= prev.skip(1));
                assert(prev.skip(1) =~= all.skip(done + 1));
                assert(all.take(done + 1).drop_last() =~= all.take(done));
                assert(all.take(done + 1).last() == all[done]);
            }
            let fresh = if now <= EXPIRY_SECS {
                true
            } else {
                e.1.created_at >= now - EXPIRY_SECS
            };
            proof {
                assert(fresh == spec_fresh(e.1, now));
            }
            let same = crate::pipeline::vec_eq(&e.0, &token);
            if fresh && !same {
                let ghost before = kept@;
                kept.push(e);
                proof {
                    assert(kept@ =~= before + seq![all[done]]);
                }
            } else {
                proof {
                    assert(kept@ =~= kept@ + Seq::<(Vec<u8>, VerificationEntry)>::empty());
                }
            }
            proof {
                done = done + 1;
            }
        }
        proof {
            assert(all.take(all.len() as int) =~= all);
        }
        let entry = VerificationEntry {
            email,
            domain: vec_clone(&domain),
            content_hash,
            verified: false,
            created_at: now,
        };
        kept.push((token, entry));
        proof {
            assert(kept@.drop_last() =~= spec_keep(all, now, kept@.last().0@));
        }
        self.entries = kept;
        proof {
            lemma_keep_no_token(all, now, self.entries@.last().0@);
            lemma_keep_pairwise(all, now, self.entries@.last().0@);
            assert(self.wf()) by {
                let fin = self.entries@;
                assert forall|i: int, j: int|
                    0 <= i < j < fin.len() implies #[trigger] fin[i].0@ != #[trigger] fin[
                    j].0@ by {
                    if j == fin.len() - 1 {
                        assert(fin[i] == fin.drop_last()[i]);
                    } else {
                        assert(fin[i] == fin.drop_last()[i] && fin[j] == fin.drop_last()[j]);
                    }
                }
            };
        }
        Some(domain)
    }

    /// Mark the token's entry verified, unless it is unknown or past
    /// the expiry window. Yields the domain.
    pub fn verify_email(&mut self, token: &Vec<u8>, now: u64) -> (r: Result<Vec<u8>, IdentityError
    >)
        requires
            old(self).wf(),
        ensures
            final(self).wf(),
            match r {
                Err(IdentityError::NotFound) => spec_find_token(old(self).entries@, 0, token@)
                    is None && final(self).entries@ == old(self).entries@,
                Err(IdentityError::Expired) => {
                    &&& spec_find_token(old(self).entries@, 0, token@) is Some
                    &&& !spec_fresh(
                        old(self).entries@[spec_find_token(old(self).entries@, 0,
                            token@).unwrap()].1,
                        now,
                    )
                    &&& final(self).entries@ == old(self).entries@
                },
                Err(IdentityError::NotVerified) => false,
                Ok(d) => {
                    let idx = spec_find_token(old(self).entries@, 0, token@).unwrap();
                    &&& spec_find_token(old(self).entries@, 0, token@) is Some
                    &&& spec_fresh(old(self).entries@[idx].1, now)
                    &&& d@ == old(self).entries@[idx].1.domain@
                    &&& final(self).entries@.len() == old(self).entries@.len()
                    &&& forall|k: int|
                        0 <= k < old(self).entries@.len() && k != idx ==> final(self).entries@[k]
                            == old(self).entries@[k]
                    &&& final(self).entries@[idx].0@ == token@
                    &&& final(self).entries@[idx].1.verified == true
                    &&& final(self).entries@[idx].1.domain@ == old(self).entries@[idx].1.domain@
                    &&& final(self).entries@[idx].1.email@ == old(self).entries@[idx].1.email@
                    &&& final(self).entries@[idx].1.content_hash@ == old(
                        self,
                    ).entries@[idx].1.content_hash@
                    &&& final(self).entries@[idx].1.created_at == old(
                        self,
                    ).entries@[idx].1.created_at
                },
            },
    {
        let idx = match self.find(token) {
            None => {
                return Err(IdentityError::NotFound);
            },
            Some(i) => i,
        };
        let stale = if now <= EXPIRY_SECS {
            false
        } else {
            self.entries[idx].1.created_at < now - EXPIRY_SECS
        };
        if stale {
            return Err(IdentityError::Expired);
        }
        let ghost before = self.entries@;
        let (tok, e) = self.entries.remove(idx);
        let domain = vec_clone(&e.domain);
        let updated = VerificationEntry {
            email: e.email,
            domain: e.domain,
            content_hash: e.content_hash,
            verified: true,
            created_at: e.created_at,
        };
        self.entries.insert(idx, (tok, updated));
        proof {
            assert(self.entries@.len() == before.len());
            assert(forall|k: int|
                0 <= k < before.len() && k != idx ==> self.entries@[k] == before[k]);
            assert forall|i: int, j: int|
                0 <= i < j < self.entries@.len() implies #[trigger] self.entries@[i].0@
                != #[trigger] self.entries@[j].0@ by {
                assert(self.entries@[i].0@ == before[i].0@);
                assert(self.entries@[j].0@ == before[j].0@);
            }
        }
        Ok(domain)
    }

    /// The status of a token: its domain, content hash, whether it
    /// was verified in time, and whether it has expired.
    pub fn status(&self, token: &Vec<u8>, now: u64) -> (r: Option<StatusResponse>)
        ensures
            match r {
                None => spec_find_token(self.entries@, 0, token@) is None,
                Some(s) => {
                    let idx = spec_find_token(self.entries@, 0, token@).unwrap();
                    &&& spec_find_token(self.entries@, 0, token@) is Some
                    &&& s.expired == !spec_fresh(self.entries@[idx].1, now)
                    &&& s.verified == (self.entries@[idx].1.verified && spec_fresh(
                        self.entries@[idx].1,
                        now,
                    ))
                    &&& s.domain@ == self.entries@[idx].1.domain@
                    &&& s.content_hash@ == self.entries@[idx].1.content_hash@
                },
            },
    {
        let idx = match self.find(token) {
            None => {
                return None;
            },
            Some(i) => i,
        };
        let e = &self.entries[idx].1;
        let expired = if now <= EXPIRY_SECS {
            false
        } else {
            e.created_at < now - EXPIRY_SECS
        };
        Some(
            StatusResponse {
                verified: e.verified && !expired,
                domain: vec_clone(&e.domain),
                content_hash: vec_clone(&e.content_hash),
                expired,
            },
        )
    }

    /// The data an identity attestation binds: the email, domain, and
    /// content hash of a token that was verified and is still fresh.
    pub fn attest_identity(&self, token: &Vec<u8>, now: u64) -> (r: Result<
        (Vec<u8>, Vec<u8>, Vec<u8>),
        IdentityError,
    >)
        ensures
            match r {
                Err(IdentityError::NotFound) => spec_find_token(self.entries@, 0, token@) is None,
                Err(IdentityError::NotVerified) => {
                    &&& spec_find_token(self.entries@, 0, token@) is Some
                    &&& !self.entries@[spec_find_token(self.entries@, 0,
                        token@).unwrap()].1.verified
                },
                Err(IdentityError::Expired) => {
                    let idx = spec_find_token(self.entries@, 0, token@).unwrap();
                    &&& spec_find_token(self.entries@, 0, token@) is Some
                    &&& self.entries@[idx].1.verified
                    &&& !spec_fresh(self.entries@[idx].1, now)
                },
                Ok(t) => {
                    let idx = spec_find_token(self.entries@, 0, token@).unwrap();
                    &&& spec_find_token(self.entries@, 0, token@) is Some
                    &&& self.entries@[idx].1.verified
                    &&& spec_fresh(self.entries@[idx].1, now)
                    &&& t.0@ == self.entries@[idx].1.email@
                    &&& t.1@ == self.entries@[idx].1.domain@
                    &&& t.2@ == self.entries@[idx].1.content_hash@
                },
            },
    {
        let idx = match self.find(token) {
            None => {
                return Err(IdentityError::NotFound);
            },
            Some(i) => i,
        };
        let e = &self.entries[idx].1;
        if !e.verified {
            return Err(IdentityError::NotVerified);
        }
        let stale = if now <= EXPIRY_SECS {
            false
        } else {
            e.created_at < now - EXPIRY_SECS
        };
        if stale {
            return Err(IdentityError::Expired);
        }
        Ok((vec_clone(&e.email), vec_clone(&e.domain), vec_clone(&e.content_hash)))
    }
}

proof fn lemma_keep_no_token(
    entries: Seq<(Vec<u8>, VerificationEntry)>,
    now: u64,
    token: Seq<u8>,
)
    ensures
        forall|k: int|
            0 <= k < spec_keep(entries, now, token).len() ==> #[trigger] spec_keep(
                entries,
                now,
                token,
            )[k].0@ != token,
    decreases entries.len(),
{
    if entries.len() > 0 {
        let pre = entries.drop_last();
        lemma_keep_no_token(pre, now, token);
        let kp = spec_keep(pre, now, token);
        let kf = spec_keep(entries, now, token);
        assert forall|k: int| 0 <= k < kf.len() implies #[trigger] kf[k].0@ != token by {
            if k < kp.len() {
                assert(kf[k] == kp[k]);
            } else {
                assert(kf[k] == entries.last());
            }
        }
    }
}

proof fn lemma_keep_pairwise(entries: Seq<(Vec<u8>, VerificationEntry)>, now: u64, token: Seq<u8>)
    requires
        forall|i: int, j: int|
            0 <= i < j < entries.len() ==> #[trigger] entries[i].0@ != #[trigger] entries[j].0@,
    ensures
        forall|i: int, j: int|
            0 <= i < j < spec_keep(entries, now, token).len() ==> #[trigger] spec_keep(
                entries,
                now,
                token,
            )[i].0@ != #[trigger] spec_keep(entries, now, token)[j].0@,
    decreases entries.len(),
{
    if entries.len() > 0 {
        let pre = entries.drop_last();
        assert(forall|i: int, j: int|
            0 <= i < j < pre.len() ==> #[trigger] pre[i].0@ != #[trigger] pre[j].0@) by {
            assert(forall|i: int| 0 <= i < pre.len() ==> #[trigger] pre[i] == entries[i]);
        };
        lemma_keep_pairwise(pre, now, token);
        let kp = spec_keep(pre, now, token);
        let kf = spec_keep(entries, now, token);
        if spec_fresh(entries.last().1, now) && entries.last().0@ != token {
            lemma_keep_subset(pre, now, token);
            assert forall|i: int, j: int|
                0 <= i < j < kf.len() implies #[trigger] kf[i].0@ != #[trigger] kf[j].0@ by {
                if j < kp.len() {
                    assert(kf[i] == kp[i] && kf[j] == kp[j]);
                } else {
                    assert(kf[j] == entries.last());
                    assert(kf[i] == kp[i]);
                    let wi = choose|w: int| 0 <= w < pre.len() && pre[w] == kp[i];
                    assert(entries[wi] == pre[wi]);
                    assert(entries[wi].0@ != entries[entries.len() - 1].0@);
                }
            }
        }
    }
}

proof fn lemma_keep_subset(entries: Seq<(Vec<u8>, VerificationEntry)>, now: u64, token: Seq<u8>)
    ensures
        forall|k: int|
            0 <= k < spec_keep(entries, now, token).len() ==> exists|w: int|
                0 <= w < entries.len() && entries[w] == #[trigger] spec_keep(
                    entries,
                    now,
                    token,
                )[k],
    decreases entries.len(),
{
    if entries.len() > 0 {
        let pre = entries.drop_last();
        lemma_keep_subset(pre, now, token);
        let kp = spec_keep(pre, now, token);
        let kf = spec_keep(entries, now, token);
        assert forall|k: int|
            0 <= k < kf.len() implies exists|w: int|
            0 <= w < entries.len() && entries[w] == #[trigger] kf[k] by {
            if k < kp.len() {
                assert(kf[k] == kp[k]);
                let w = choose|w: int| 0 <= w < pre.len() && pre[w] == kp[k];
                assert(entries[w] == pre[w]);
            } else {
                assert(kf[k] == entries.last());
                assert(entries[entries.len() - 1] == entries.last());
            }
        }
    }
}

} // verus!
