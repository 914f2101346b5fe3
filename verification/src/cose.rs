//! COSE_Sign1 envelope decoding: the optional tag 18, the 4-element
//! array of protected header, unprotected map, detached payload, and
//! signature; the ES256 algorithm gate; the `x5chain` certificate
//! list; and the canonical `Sig_structure1` serialization.

use vstd::prelude::*;
use crate::bytes::{sub_vec, vecs_view};
use crate::cbor::{spec_cbor_head, spec_cbor_skip, spec_map_value_uint, cbor_head, cbor_skip,
    map_value_uint, spec_text_at, spec_uint_at, text_at, uint_at};

verus! {

/// The decoded parts of a COSE_Sign1 envelope: the raw protected
/// header bytes, the position of the unprotected map in the envelope,
/// and the signature bytes.
pub struct CoseParts {
    pub protected: Vec<u8>,
    pub unprotected_pos: usize,
    pub signature: Vec<u8>,
}

/// The ghost image of the decoded parts.
pub ghost struct GCose {
    pub protected: Seq<u8>,
    pub unprotected_pos: int,
    pub signature: Seq<u8>,
}

impl CoseParts {
    pub open spec fn view(&self) -> GCose {
        GCose {
            protected: self.protected@,
            unprotected_pos: self.unprotected_pos as int,
            signature: self.signature@,
        }
    }
}

/// The parts of a COSE_Sign1 envelope: CBOR tag 18 is accepted and
/// stripped; the body must be a 4-element array of a byte string, a
/// map, a byte string or nil, and a byte string, with nothing after.
pub open spec fn spec_parse_cose(d: Seq<u8>) -> Option<GCose> {
    match spec_cbor_head(d, 0) {
        None => None,
        Some((maj0, v0, hl0)) => {
            let apos: int = if maj0 == 6 {
                if v0 == 18 {
                    hl0
                } else {
                    -1
                }
            } else {
                0
            };
            if apos < 0 {
                None
            } else {
                match spec_cbor_head(d, apos) {
                    Some((amaj, acnt, ahl)) => if amaj == 4 && acnt == 4 {
                        let e0 = apos + ahl;
                        match spec_cbor_head(d, e0) {
                            Some((m0, l0, h0)) => if m0 == 2 && e0 + h0 + l0 <= d.len() {
                                let protected = d.subrange(e0 + h0, e0 + h0 + l0);
                                let e1 = e0 + h0 + l0;
                                match spec_cbor_head(d, e1) {
                                    Some((m1, c1, h1)) => if m1 == 5 {
                                        match spec_cbor_skip(d, e1) {
                                            Some(e2) => {
                                                let payload_ok = match spec_cbor_head(d, e2) {
                                                    Some((mp, vp, hp)) => mp == 2 || (mp == 7
                                                        && vp == 22),
                                                    None => false,
                                                };
                                                if payload_ok {
                                                    match spec_cbor_skip(d, e2) {
                                                        Some(e3) => match spec_cbor_head(d, e3) {
                                                            Some((m3, l3, h3)) => if m3 == 2 && e3
                                                                + h3 + l3 == d.len() {
                                                                Some(
                                                                    GCose {
                                                                        protected: protected,
                                                                        unprotected_pos: e1,
                                                                        signature: d.subrange(
                                                                            e3 + h3,
                                                                            e3 + h3 + l3,
                                                                        ),
                                                                    },
                                                                )
                                                            } else {
                                                                None
                                                            },
                                                            None => None,
                                                        },
                                                        None => None,
                                                    }
                                                } else {
                                                    None
                                                }
                                            },
                                            None => None,
                                        }
                                    } else {
                                        None
                                    },
                                    None => None,
                                }
                            } else {
                                None
                            },
                            None => None,
                        }
                    } else {
                        None
                    },
                    None => None,
                }
            }
        },
    }
}

/// Parse a COSE_Sign1 envelope, tagged or untagged.
pub fn parse_cose(d: &[u8]) -> (r: Option<CoseParts>)
    ensures
        match r {
            Some(c) => spec_parse_cose(d@) == Some(c.view()) && c.unprotected_pos <= d@.len(),
            None => spec_parse_cose(d@) is None,
        },
{
    let n = d.len();
    let (maj0, v0, hl0) = match cbor_head(d, 0) {
        None => {
            return None;
        },
        Some(h) => h,
    };
    let apos: usize = if maj0 == 6 {
        if v0 == 18 {
            hl0
        } else {
            return None;
        }
    } else {
        0
    };
    let (amaj, acnt, ahl) = match cbor_head(d, apos) {
        None => {
            return None;
        },
        Some(h) => h,
    };
    if amaj != 4 || acnt != 4 {
        return None;
    }
    let e0 = apos + ahl;
    let (m0, l0, h0) = match cbor_head(d, e0) {
        None => {
            return None;
        },
        Some(h) => h,
    };
    if m0 != 2 {
        return None;
    }
    if l0 > (n - (e0 + h0)) as u64 {
        return None;
    }
    let protected = sub_vec(d, e0 + h0, e0 + h0 + l0 as usize);
    let e1 = e0 + h0 + l0 as usize;
    let (m1, _c1, _h1) = match cbor_head(d, e1) {
        None => {
            return None;
        },
        Some(h) => h,
    };
    if m1 != 5 {
        return None;
    }
    let e2 = match cbor_skip(d, e1) {
        None => {
            return None;
        },
        Some(p) => p,
    };
    let payload_ok = match cbor_head(d, e2) {
        Some((2, _, _)) => true,
        Some((7, 22, _)) => true,
        _ => false,
    };
    if !payload_ok {
        return None;
    }
    let e3 = match cbor_skip(d, e2) {
        None => {
            return None;
        },
        Some(p) => p,
    };
    let (m3, l3, h3) = match cbor_head(d, e3) {
        None => {
            return None;
        },
        Some(h) => h,
    };
    if m3 != 2 {
        return None;
    }
    if l3 > (n - (e3 + h3)) as u64 || e3 + h3 + l3 as usize != n {
        return None;
    }
    let signature = sub_vec(d, e3 + h3, n);
    Some(CoseParts { protected, unprotected_pos: e1, signature })
}

/// Whether the protected header carries `alg` (key 1) equal to ES256,
/// the COSE algorithm -7.
pub open spec fn spec_alg_is_es256(protected: Seq<u8>) -> bool {
    match spec_map_value_uint(protected, 0, 1) {
        Some(vpos) => match spec_cbor_head(protected, vpos) {
            Some((maj, v, hl)) => maj == 1 && v == 6,
            None => false,
        },
        None => false,
    }
}

/// Check the algorithm gate on the raw protected header bytes.
pub fn alg_is_es256(protected: &Vec<u8>) -> (r: bool)
    ensures
        r == spec_alg_is_es256(protected@),
{
    match map_value_uint(protected.as_slice(), 0, 1) {
        Some(vpos) => match cbor_head(protected.as_slice(), vpos) {
            Some((1, 6, _)) => true,
            _ => false,
        },
        None => false,
    }
}

/// The ASCII bytes of the header label `x5chain`.
pub open spec fn spec_label_x5chain() -> Seq<u8> {
    seq![0x78u8, 0x35, 0x63, 0x68, 0x61, 0x69, 0x6e]
}

fn label_x5chain() -> (r: Vec<u8>)
    ensures
        r@ == spec_label_x5chain(),
{
    let mut v: Vec<u8> = Vec::new();
    v.push(0x78);
    v.push(0x35);
    v.push(0x63);
    v.push(0x68);
    v.push(0x61);
    v.push(0x69);
    v.push(0x6e);
    proof {
        assert(v@ =~= spec_label_x5chain());
    }
    v
}

/// Whether the item at `pos` is the `x5chain` label: the integer 33
/// or the text `x5chain`.
pub open spec fn spec_x5_key_at(d: Seq<u8>, pos: int) -> bool {
    spec_uint_at(d, pos, 33) || spec_text_at(d, pos, spec_label_x5chain())
}

/// The position of the value under the `x5chain` label, scanning `cnt`
/// entries from `epos`.
pub open spec fn spec_map_scan_x5(d: Seq<u8>, epos: int, cnt: int) -> Option<int>
    decreases cnt,
{
    if cnt <= 0 {
        None
    } else {
        match spec_cbor_skip(d, epos) {
            None => None,
            Some(vpos) => if spec_x5_key_at(d, epos) {
                Some(vpos)
            } else {
                match spec_cbor_skip(d, vpos) {
                    None => None,
                    Some(next) => spec_map_scan_x5(d, next, cnt - 1),
                }
            },
        }
    }
}

/// The position of the `x5chain` value of the map at `mpos`.
pub open spec fn spec_map_value_x5(d: Seq<u8>, mpos: int) -> Option<int> {
    match spec_cbor_head(d, mpos) {
        Some((major, cnt, hl)) => if major == 5 {
            spec_map_scan_x5(d, mpos + hl, cnt)
        } else {
            None
        },
        None => None,
    }
}

fn map_scan_x5(d: &[u8], epos: usize, cnt: u64) -> (r: Option<usize>)
    requires
        epos <= d@.len(),
    ensures
        match r {
            Some(p) => spec_map_scan_x5(d@, epos as int, cnt as int) == Some(p as int) && p
                <= d@.len(),
            None => spec_map_scan_x5(d@, epos as int, cnt as int) is None,
        },
    decreases cnt,
{
    if cnt == 0 {
        return None;
    }
    match cbor_skip(d, epos) {
        None => None,
        Some(vpos) => {
            let lab = label_x5chain();
            if uint_at(d, epos, 33) || text_at(d, epos, &lab) {
                Some(vpos)
            } else {
                match cbor_skip(d, vpos) {
                    None => None,
                    Some(next) => map_scan_x5(d, next, cnt - 1),
                }
            }
        },
    }
}

fn map_value_x5(d: &[u8], mpos: usize) -> (r: Option<usize>)
    ensures
        match r {
            Some(p) => spec_map_value_x5(d@, mpos as int) == Some(p as int) && p <= d@.len(),
            None => spec_map_value_x5(d@, mpos as int) is None,
        },
{
    let n = d.len();
    match cbor_head(d, mpos) {
        Some((major, cnt, hl)) => if major == 5 {
            map_scan_x5(d, mpos + hl, cnt)
        } else {
            None
        },
        None => None,
    }
}

/// The byte-string contents among `cnt` array items from `pos`;
/// items of any other type are passed over.
pub open spec fn spec_x5_items(d: Seq<u8>, pos: int, cnt: int) -> Option<Seq<Seq<u8>>>
    decreases cnt,
{
    if cnt <= 0 {
        Some(Seq::empty())
    } else {
        match spec_cbor_head(d, pos) {
            None => None,
            Some((major, v, hl)) => if major == 2 {
                if v > d.len() - (pos + hl) {
                    None
                } else {
                    match spec_x5_items(d, pos + hl + v, cnt - 1) {
                        Some(rest) => Some(seq![d.subrange(pos + hl, pos + hl + v)] + rest),
                        None => None,
                    }
                }
            } else {
                match spec_cbor_skip(d, pos) {
                    None => None,
                    Some(next) => spec_x5_items(d, next, cnt - 1),
                }
            },
        }
    }
}

fn x5_items(d: &[u8], pos: usize, cnt: u64) -> (r: Option<Vec<Vec<u8>>>)
    requires
        pos <= d@.len(),
    ensures
        match r {
            Some(v) => spec_x5_items(d@, pos as int, cnt as int) == Some(vecs_view(v@)),
            None => spec_x5_items(d@, pos as int, cnt as int) is None,
        },
    decreases cnt,
{
    if cnt == 0 {
        let r: Vec<Vec<u8>> = Vec::new();
        proof {
            assert(vecs_view(r@) =~= Seq::<Seq<u8>>::empty());
        }
        return Some(r);
    }
    let n = d.len();
    match cbor_head(d, pos) {
        None => None,
        Some((major, v, hl)) => if major == 2 {
            if v > (n - (pos + hl)) as u64 {
                None
            } else {
                let item = sub_vec(d, pos + hl, pos + hl + v as usize);
                match x5_items(d, pos + hl + v as usize, cnt - 1) {
                    Some(mut rest) => {
                        let mut out: Vec<Vec<u8>> = Vec::new();
                        out.push(item);
                        out.append(&mut rest);
                        proof {
                            assert(vecs_view(out@) =~= seq![d@.subrange(pos + hl, pos + hl
                                + v as int)] + spec_x5_items(d@, pos + hl + v as int, cnt - 1)
                                .unwrap());
                        }
                        Some(out)
                    },
                    None => None,
                }
            }
        } else {
            match cbor_skip(d, pos) {
                None => None,
                Some(next) => x5_items(d, next, cnt - 1),
            }
        },
    }
}

/// The certificate list denoted by the `x5chain` value at `vpos`: a
/// single byte string is one certificate, an array yields its byte
/// strings in order, and any other shape yields none.
pub open spec fn spec_x5_value(d: Seq<u8>, vpos: int) -> Seq<Seq<u8>> {
    match spec_cbor_head(d, vpos) {
        Some((maj, v, hl)) => if maj == 2 {
            if v <= d.len() - (vpos + hl) {
                seq![d.subrange(vpos + hl, vpos + hl + v)]
            } else {
                Seq::empty()
            }
        } else if maj == 4 {
            match spec_x5_items(d, vpos + hl, v) {
                Some(items) => items,
                None => Seq::empty(),
            }
        } else {
            Seq::empty()
        },
        None => Seq::empty(),
    }
}

fn x5_value(d: &[u8], vpos: usize) -> (r: Vec<Vec<u8>>)
    requires
        vpos <= d@.len(),
    ensures
        vecs_view(r@) == spec_x5_value(d@, vpos as int),
{
    let n = d.len();
    match cbor_head(d, vpos) {
        Some((2, v, hl)) => {
            if v <= (n - (vpos + hl)) as u64 {
                let item = sub_vec(d, vpos + hl, vpos + hl + v as usize);
                let mut out: Vec<Vec<u8>> = Vec::new();
                out.push(item);
                proof {
                    assert(vecs_view(out@) =~= seq![d@.subrange(vpos + hl, vpos + hl + v as int)]);
                }
                out
            } else {
                let out: Vec<Vec<u8>> = Vec::new();
                proof {
                    assert(vecs_view(out@) =~= Seq::<Seq<u8>>::empty());
                }
                out
            }
        },
        Some((4, cnt, hl)) => {
            match x5_items(d, vpos + hl, cnt) {
                Some(items) => items,
                None => {
                    let out: Vec<Vec<u8>> = Vec::new();
                    proof {
                        assert(vecs_view(out@) =~= Seq::<Seq<u8>>::empty());
                    }
                    out
                },
            }
        },
        _ => {
            let out: Vec<Vec<u8>> = Vec::new();
            proof {
                assert(vecs_view(out@) =~= Seq::<Seq<u8>>::empty());
            }
            out
        },
    }
}

/// The certificate chain of a COSE envelope: the `x5chain` value from
/// the unprotected header first, the protected header as fallback; an
/// envelope without one yields an empty chain.
pub open spec fn spec_cert_chain_from_cose(d: Seq<u8>) -> Option<Seq<Seq<u8>>> {
    match spec_parse_cose(d) {
        None => None,
        Some(c) => match spec_map_value_x5(d, c.unprotected_pos) {
            Some(vpos) => Some(spec_x5_value(d, vpos)),
            None => match spec_map_value_x5(c.protected, 0) {
                Some(vpos) => Some(spec_x5_value(c.protected, vpos)),
                None => Some(Seq::empty()),
            },
        },
    }
}

/// Extract the DER certificate chain from a COSE_Sign1 `x5chain`
/// header, leaf first.
pub fn extract_cert_chain_from_cose(cose_bytes: &[u8]) -> (r: Option<Vec<Vec<u8>>>)
    ensures
        match r {
            Some(v) => spec_cert_chain_from_cose(cose_bytes@) == Some(vecs_view(v@)),
            None => spec_cert_chain_from_cose(cose_bytes@) is None,
        },
{
    let parts = match parse_cose(cose_bytes) {
        None => {
            return None;
        },
        Some(p) => p,
    };
    match map_value_x5(cose_bytes, parts.unprotected_pos) {
        Some(vpos) => Some(x5_value(cose_bytes, vpos)),
        None => match map_value_x5(parts.protected.as_slice(), 0) {
            Some(vpos) => Some(x5_value(parts.protected.as_slice(), vpos)),
            None => {
                let out: Vec<Vec<u8>> = Vec::new();
                proof {
                    assert(vecs_view(out@) =~= Seq::<Seq<u8>>::empty());
                }
                Some(out)
            },
        },
    }
}

/// The minimal byte-string head for a content of `n` bytes.
pub open spec fn spec_bstr_head(n: int) -> Seq<u8> {
    if n < 24 {
        seq![(0x40 + n) as u8]
    } else if n < 0x100 {
        seq![0x58u8, n as u8]
    } else if n < 0x10000 {
        seq![0x59u8, (n / 0x100) as u8, (n % 0x100) as u8]
    } else if n < 0x100000000 {
        seq![0x5Au8, (n / 0x1000000) as u8, ((n / 0x10000) % 0x100) as u8, ((n / 0x100)
            % 0x100) as u8, (n % 0x100) as u8]
    } else {
        seq![0x5Bu8, (n / 0x100000000000000) as u8, ((n / 0x1000000000000) % 0x100) as u8, ((n
            / 0x10000000000) % 0x100) as u8, ((n / 0x100000000) % 0x100) as u8, ((n / 0x1000000)
            % 0x100) as u8, ((n / 0x10000) % 0x100) as u8, ((n / 0x100) % 0x100) as u8, (n
            % 0x100) as u8]
    }
}

fn push_bstr_head(out: &mut Vec<u8>, n: usize)
    ensures
        final(out)@ == old(out)@ + spec_bstr_head(n as int),
{
    if n < 24 {
        out.push(0x40 + n as u8);
        proof {
            assert(out@ =~= old(out)@ + spec_bstr_head(n as int));
        }
    } else if n < 0x100 {
        out.push(0x58);
        out.push(n as u8);
        proof {
            assert(out@ =~= old(out)@ + spec_bstr_head(n as int));
        }
    } else if n < 0x10000 {
        out.push(0x59);
        out.push((n / 0x100) as u8);
        out.push((n % 0x100) as u8);
        proof {
            assert(out@ =~= old(out)@ + spec_bstr_head(n as int));
        }
    } else if (n as u64) < 0x100000000u64 {
        out.push(0x5A);
        out.push((n / 0x1000000) as u8);
        out.push(((n / 0x10000) % 0x100) as u8);
        out.push(((n / 0x100) % 0x100) as u8);
        out.push((n % 0x100) as u8);
        proof {
            assert(out@ =~= old(out)@ + spec_bstr_head(n as int));
        }
    } else {
        let w = n as u64;
        out.push(0x5B);
        out.push((w / 0x100000000000000) as u8);
        out.push(((w / 0x1000000000000) % 0x100) as u8);
        out.push(((w / 0x10000000000) % 0x100) as u8);
        out.push(((w / 0x100000000) % 0x100) as u8);
        out.push(((w / 0x1000000) % 0x100) as u8);
        out.push(((w / 0x10000) % 0x100) as u8);
        out.push(((w / 0x100) % 0x100) as u8);
        out.push((w % 0x100) as u8);
        proof {
            assert(out@ =~= old(out)@ + spec_bstr_head(n as int));
        }
    }
}

/// The ASCII bytes of the text `Signature1`.
pub open spec fn spec_signature1_text() -> Seq<u8> {
    seq![0x53u8, 0x69, 0x67, 0x6e, 0x61, 0x74, 0x75, 0x72, 0x65, 0x31]
}

/// The canonical `Sig_structure1` encoding: a 4-element array of the
/// text `Signature1`, the protected header bytes as a byte string, an
/// empty byte string for the external data, and the detached payload
/// as a byte string.
pub open spec fn spec_sig_structure(protected: Seq<u8>, payload: Seq<u8>) -> Seq<u8> {
    seq![0x84u8, 0x6A] + spec_signature1_text() + spec_bstr_head(protected.len() as int)
        + protected + seq![0x40u8] + spec_bstr_head(payload.len() as int) + payload
}

/// Serialize the `Sig_structure1` array for the detached payload.
pub fn sig_structure(protected: &Vec<u8>, payload: &Vec<u8>) -> (r: Vec<u8>)
    ensures
        r@ == spec_sig_structure(protected@, payload@),
{
    let mut out: Vec<u8> = Vec::new();
    out.push(0x84);
    out.push(0x6A);
    out.push(0x53);
    out.push(0x69);
    out.push(0x67);
    out.push(0x6e);
    out.push(0x61);
    out.push(0x74);
    out.push(0x75);
    out.push(0x72);
    out.push(0x65);
    out.push(0x31);
    let ghost pre = out@;
    proof {
        assert(pre =~= seq![0x84u8, 0x6A] + spec_signature1_text());
    }
    push_bstr_head(&mut out, protected.len());
    crate::jpeg::append_bytes(&mut out, protected);
    out.push(0x40);
    push_bstr_head(&mut out, payload.len());
    crate::jpeg::append_bytes(&mut out, payload);
    proof {
        assert(out@ =~= spec_sig_structure(protected@, payload@));
    }
    out
}

} // verus!
