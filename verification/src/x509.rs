//! X.509 projection from DER: the TLV walk down to the subject public
//! key, and the Organization and Common Name attributes of the issuer
//! and subject names, decoded as UTF-8 with lossy replacement.

use vstd::prelude::*;
use crate::bytes::{spec_u16_be, spec_u32_be, u16_be, u32_be, sub_vec, range_eq};
use crate::utf8::{spec_lossy, utf8_lossy};

verus! {

/// The tag, content range, and following position of the DER element
/// at `pos`. Lengths must use the minimal form, as strict DER asks.
pub open spec fn spec_der_tlv(d: Seq<u8>, pos: int) -> Option<(int, int, int, int)> {
    if pos < 0 || pos + 2 > d.len() {
        None
    } else {
        let tag = d[pos] as int;
        let lb = d[pos + 1];
        let parsed: Option<(int, int)> = if lb < 0x80 {
            Some((2, lb as int))
        } else if lb == 0x81 {
            if pos + 3 <= d.len() && d[pos + 2] >= 0x80 {
                Some((3, d[pos + 2] as int))
            } else {
                None
            }
        } else if lb == 0x82 {
            if pos + 4 <= d.len() && spec_u16_be(d, pos + 2) >= 0x100 {
                Some((4, spec_u16_be(d, pos + 2)))
            } else {
                None
            }
        } else if lb == 0x83 {
            if pos + 5 <= d.len() && d[pos + 2] * 0x10000 + spec_u16_be(d, pos + 3) >= 0x10000 {
                Some((5, d[pos + 2] * 0x10000 + spec_u16_be(d, pos + 3)))
            } else {
                None
            }
        } else if lb == 0x84 {
            if pos + 6 <= d.len() && spec_u32_be(d, pos + 2) >= 0x1000000 {
                Some((6, spec_u32_be(d, pos + 2)))
            } else {
                None
            }
        } else {
            None
        };
        match parsed {
            None => None,
            Some((hdr, clen)) => {
                let cstart = pos + hdr;
                if clen > d.len() - cstart {
                    None
                } else {
                    Some((tag, cstart, clen, cstart + clen))
                }
            },
        }
    }
}

pub fn der_tlv(d: &[u8], pos: usize) -> (r: Option<(u8, usize, usize, usize)>)
    ensures
        match r {
            Some(t) => spec_der_tlv(d@, pos as int) == Some(
                (t.0 as int, t.1 as int, t.2 as int, t.3 as int),
            ) && t.3 <= d@.len() && t.1 <= t.3 && pos < t.1,
            None => spec_der_tlv(d@, pos as int) is None,
        },
{
    let n = d.len();
    if pos > n || n - pos < 2 {
        return None;
    }
    let tag = d[pos];
    let lb = d[pos + 1];
    let parsed: Option<(usize, usize)> = if lb < 0x80 {
        Some((2, lb as usize))
    } else if lb == 0x81 {
        if n - pos >= 3 && d[pos + 2] >= 0x80 {
            Some((3, d[pos + 2] as usize))
        } else {
            None
        }
    } else if lb == 0x82 {
        if n - pos >= 4 && u16_be(d, pos + 2) >= 0x100 {
            Some((4, u16_be(d, pos + 2) as usize))
        } else {
            None
        }
    } else if lb == 0x83 {
        if n - pos >= 5 && d[pos + 2] as u32 * 0x10000 + u16_be(d, pos + 3) as u32 >= 0x10000 {
            Some((5, d[pos + 2] as usize * 0x10000 + u16_be(d, pos + 3) as usize))
        } else {
            None
        }
    } else if lb == 0x84 {
        if n - pos >= 6 && u32_be(d, pos + 2) >= 0x1000000 {
            Some((6, u32_be(d, pos + 2) as usize))
        } else {
            None
        }
    } else {
        None
    };
    match parsed {
        None => None,
        Some((hdr, clen)) => {
            let cstart = pos + hdr;
            if clen > n - cstart {
                None
            } else {
                Some((tag, cstart, clen, cstart + clen))
            }
        },
    }
}

/// The locations of a certificate's issuer and subject name contents
/// and the raw subject-public-key bytes.
pub struct CertParts {
    pub issuer_start: usize,
    pub issuer_end: usize,
    pub subject_start: usize,
    pub subject_end: usize,
    pub pubkey: Vec<u8>,
}

/// The ghost image of the parsed certificate locations.
pub ghost struct GCert {
    pub issuer_start: int,
    pub issuer_end: int,
    pub subject_start: int,
    pub subject_end: int,
    pub pubkey: Seq<u8>,
}

impl CertParts {
    pub open spec fn view(&self) -> GCert {
        GCert {
            issuer_start: self.issuer_start as int,
            issuer_end: self.issuer_end as int,
            subject_start: self.subject_start as int,
            subject_end: self.subject_end as int,
            pubkey: self.pubkey@,
        }
    }
}

/// The certificate's name locations and public key: a SEQUENCE whose
/// first child is the TBS certificate, whose children in order are an
/// optional [0] version, the serial number, the signature algorithm,
/// the issuer name, the validity, the subject name, and the subject
/// public key info, whose BIT STRING holds the key after one
/// unused-bits octet.
pub open spec fn spec_parse_cert(d: Seq<u8>) -> Option<GCert> {
    match spec_der_tlv(d, 0) {
        Some((t_cert, cs, cl, cnext)) => if t_cert == 0x30 && cnext == d.len() {
            match spec_der_tlv(d, cs) {
                Some((t_tbs, ts, tl, tnext)) => if t_tbs == 0x30 && tnext <= cs + cl {
                    let te = ts + tl;
                    let p0: int = match spec_der_tlv(d, ts) {
                        Some((t_v, vs, vl, vnext)) => if t_v == 0xA0 && vnext <= te {
                            vnext
                        } else {
                            ts
                        },
                        None => ts,
                    };
                    match spec_der_tlv(d, p0) {
                        Some((t_ser, _s1, _l1, p1)) => if t_ser == 0x02 && p1 <= te {
                            match spec_der_tlv(d, p1) {
                                Some((t_alg, _s2, _l2, p2)) => if t_alg == 0x30 && p2 <= te {
                                    match spec_der_tlv(d, p2) {
                                        Some((t_iss, is_, il, p3)) => if t_iss == 0x30 && p3
                                            <= te {
                                            match spec_der_tlv(d, p3) {
                                                Some((t_val, _s4, _l4, p4)) => if t_val == 0x30
                                                    && p4 <= te {
                                                    match spec_der_tlv(d, p4) {
                                                        Some((t_sub, ss, sl, p5)) => if t_sub
                                                            == 0x30 && p5 <= te {
                                                            spec_parse_spki(
                                                                d,
                                                                p5,
                                                                te,
                                                                is_,
                                                                is_ + il,
                                                                ss,
                                                                ss + sl,
                                                            )
                                                        } else {
                                                            None
                                                        },
                                                        None => None,
                                                    }
                                                } else {
                                                    None
                                                },
                                                None => None,
                                            }
                                        } else {
                                            None
                                        },
                                        None => None,
                                    }
                                } else {
                                    None
                                },
                                None => None,
                            }
                        } else {
                            None
                        },
                        None => None,
                    }
                } else {
                    None
                },
                None => None,
            }
        } else {
            None
        },
        None => None,
    }
}

/// The subject-public-key-info walk: a SEQUENCE of the algorithm
/// SEQUENCE and the key BIT STRING.
pub open spec fn spec_parse_spki(
    d: Seq<u8>,
    p5: int,
    te: int,
    is_: int,
    ie: int,
    ss: int,
    se: int,
) -> Option<GCert> {
    match spec_der_tlv(d, p5) {
        Some((t_spki, ps, pl, p6)) => if t_spki == 0x30 && p6 <= te {
            match spec_der_tlv(d, ps) {
                Some((t_ka, _s7, _l7, p7)) => if t_ka == 0x30 && p7 <= ps + pl {
                    match spec_der_tlv(d, p7) {
                        Some((t_bs, bs, bl, p8)) => if t_bs == 0x03 && p8 <= ps + pl && bl >= 1 {
                            Some(
                                GCert {
                                    issuer_start: is_,
                                    issuer_end: ie,
                                    subject_start: ss,
                                    subject_end: se,
                                    pubkey: d.subrange(bs + 1, bs + bl),
                                },
                            )
                        } else {
                            None
                        },
                        None => None,
                    }
                } else {
                    None
                },
                None => None,
            }
        } else {
            None
        },
        None => None,
    }
}

/// Parse a DER certificate down to its name locations and public key.
pub fn parse_cert(d: &[u8]) -> (r: Option<CertParts>)
    ensures
        match r {
            Some(c) => spec_parse_cert(d@) == Some(c.view()) && c.issuer_start <= c.issuer_end
                <= d@.len() && c.subject_start <= c.subject_end <= d@.len(),
            None => spec_parse_cert(d@) is None,
        },
{
    let (t_cert, cs, cl, cnext) = match der_tlv(d, 0) {
        None => {
            return None;
        },
        Some(t) => t,
    };
    if !(t_cert == 0x30 && cnext == d.len()) {
        return None;
    }
    let (t_tbs, ts, tl, tnext) = match der_tlv(d, cs) {
        None => {
            return None;
        },
        Some(t) => t,
    };
    if !(t_tbs == 0x30 && tnext <= cs + cl) {
        return None;
    }
    let te = ts + tl;
    let p0: usize = match der_tlv(d, ts) {
        Some((t_v, _vs, _vl, vnext)) => if t_v == 0xA0 && vnext <= te {
            vnext
        } else {
            ts
        },
        None => ts,
    };
    let (t_ser, _s1, _l1, p1) = match der_tlv(d, p0) {
        None => {
            return None;
        },
        Some(t) => t,
    };
    if !(t_ser == 0x02 && p1 <= te) {
        return None;
    }
    let (t_alg, _s2, _l2, p2) = match der_tlv(d, p1) {
        None => {
            return None;
        },
        Some(t) => t,
    };
    if !(t_alg == 0x30 && p2 <= te) {
        return None;
    }
    let (t_iss, is_, il, p3) = match der_tlv(d, p2) {
        None => {
            return None;
        },
        Some(t) => t,
    };
    if !(t_iss == 0x30 && p3 <= te) {
        return None;
    }
    let (t_val, _s4, _l4, p4) = match der_tlv(d, p3) {
        None => {
            return None;
        },
        Some(t) => t,
    };
    if !(t_val == 0x30 && p4 <= te) {
        return None;
    }
    let (t_sub, ss, sl, p5) = match der_tlv(d, p4) {
        None => {
            return None;
        },
        Some(t) => t,
    };
    if !(t_sub == 0x30 && p5 <= te) {
        return None;
    }
    let (t_spki, ps, pl, p6) = match der_tlv(d, p5) {
        None => {
            return None;
        },
        Some(t) => t,
    };
    if !(t_spki == 0x30 && p6 <= te) {
        return None;
    }
    let (t_ka, _s7, _l7, p7) = match der_tlv(d, ps) {
        None => {
            return None;
        },
        Some(t) => t,
    };
    if !(t_ka == 0x30 && p7 <= ps + pl) {
        return None;
    }
    let (t_bs, bs, bl, p8) = match der_tlv(d, p7) {
        None => {
            return None;
        },
        Some(t) => t,
    };
    if !(t_bs == 0x03 && p8 <= ps + pl && bl >= 1) {
        return None;
    }
    let pubkey = sub_vec(d, bs + 1, bs + bl);
    Some(CertParts { issuer_start: is_, issuer_end: is_ + il, subject_start: ss, subject_end: ss
        + sl, pubkey })
}

/// The ASN.1 OID content bytes of Common Name, 2.5.4.3.
pub open spec fn spec_oid_cn() -> Seq<u8> {
    seq![0x55u8, 0x04, 0x03]
}

/// The ASN.1 OID content bytes of Organization, 2.5.4.10.
pub open spec fn spec_oid_org() -> Seq<u8> {
    seq![0x55u8, 0x04, 0x0A]
}

fn oid_cn() -> (r: Vec<u8>)
    ensures
        r@ == spec_oid_cn(),
{
    let mut v: Vec<u8> = Vec::new();
    v.push(0x55);
    v.push(0x04);
    v.push(0x03);
    proof {
        assert(v@ =~= spec_oid_cn());
    }
    v
}

fn oid_org() -> (r: Vec<u8>)
    ensures
        r@ == spec_oid_org(),
{
    let mut v: Vec<u8> = Vec::new();
    v.push(0x55);
    v.push(0x04);
    v.push(0x0A);
    proof {
        assert(v@ =~= spec_oid_org());
    }
    v
}

/// The value content of the first attribute with the given OID among
/// the attribute-type-and-value sequences from `pos` to `end`.
pub open spec fn spec_atv_scan(d: Seq<u8>, pos: int, end: int, oid: Seq<u8>) -> Option<Seq<u8>>
    decreases end - pos,
{
    if pos < 0 || pos >= end {
        None
    } else {
        match spec_der_tlv(d, pos) {
            Some((t_atv, avs, avl, anext)) => if t_atv == 0x30 && anext <= end {
                match spec_der_tlv(d, avs) {
                    Some((t_oid, os, ol, onext)) => if t_oid == 0x06 && onext <= avs + avl {
                        if ol == oid.len() && d.subrange(os, os + ol) == oid {
                            match spec_der_tlv(d, onext) {
                                Some((_t_val, vs, vl, vnext)) => if vnext <= avs + avl {
                                    Some(d.subrange(vs, vs + vl))
                                } else {
                                    None
                                },
                                None => None,
                            }
                        } else {
                            spec_atv_scan(d, anext, end, oid)
                        }
                    } else {
                        None
                    },
                    None => None,
                }
            } else {
                None
            },
            None => None,
        }
    }
}

/// The value content of the first attribute with the given OID in the
/// relative-distinguished-name sets from `pos` to `end`.
pub open spec fn spec_name_attr(d: Seq<u8>, pos: int, end: int, oid: Seq<u8>) -> Seq<u8>
    decreases end - pos,
{
    if pos < 0 || pos >= end {
        Seq::empty()
    } else {
        match spec_der_tlv(d, pos) {
            Some((t_set, ss, sl, snext)) => if t_set == 0x31 && snext <= end {
                match spec_atv_scan(d, ss, ss + sl, oid) {
                    Some(v) => v,
                    None => spec_name_attr(d, snext, end, oid),
                }
            } else {
                Seq::empty()
            },
            None => Seq::empty(),
        }
    }
}

fn atv_scan(d: &[u8], pos: usize, end: usize, oid: &Vec<u8>) -> (r: Option<Vec<u8>>)
    requires
        end <= d@.len(),
    ensures
        match r {
            Some(v) => spec_atv_scan(d@, pos as int, end as int, oid@) == Some(v@),
            None => spec_atv_scan(d@, pos as int, end as int, oid@) is None,
        },
    decreases end - pos,
{
    if pos >= end {
        return None;
    }
    let (t_atv, avs, avl, anext) = match der_tlv(d, pos) {
        None => {
            return None;
        },
        Some(t) => t,
    };
    if !(t_atv == 0x30 && anext <= end) {
        return None;
    }
    let (t_oid, os, ol, onext) = match der_tlv(d, avs) {
        None => {
            return None;
        },
        Some(t) => t,
    };
    if !(t_oid == 0x06 && onext <= avs + avl) {
        return None;
    }
    if ol == oid.len() && range_eq(d, os, oid.as_slice()) {
        proof {
            assert(d@.subrange(os as int, os + ol) == oid@);
        }
        match der_tlv(d, onext) {
            Some((_t_val, vs, vl, vnext)) => if vnext <= avs + avl {
                Some(sub_vec(d, vs, vs + vl))
            } else {
                None
            },
            None => None,
        }
    } else {
        proof {
            if ol == oid@.len() {
                assert(d@.subrange(os as int, os + ol) != oid@);
            }
        }
        atv_scan(d, anext, end, oid)
    }
}

fn name_attr(d: &[u8], pos: usize, end: usize, oid: &Vec<u8>) -> (r: Vec<u8>)
    requires
        end <= d@.len(),
    ensures
        r@ == spec_name_attr(d@, pos as int, end as int, oid@),
    decreases end - pos,
{
    if pos >= end {
        return Vec::new();
    }
    let (t_set, ss, sl, snext) = match der_tlv(d, pos) {
        None => {
            return Vec::new();
        },
        Some(t) => t,
    };
    if !(t_set == 0x31 && snext <= end) {
        return Vec::new();
    }
    match atv_scan(d, ss, ss + sl, oid) {
        Some(v) => v,
        None => name_attr(d, snext, end, oid),
    }
}

/// The issuer Organization and the Common Name of a certificate, both
/// decoded with lossy replacement; the subject Common Name falls back
/// to the issuer Common Name where it is empty.
pub open spec fn spec_cert_names(d: Seq<u8>) -> (Seq<u8>, Seq<u8>) {
    match spec_parse_cert(d) {
        None => (Seq::empty(), Seq::empty()),
        Some(c) => {
            let issuer_org = spec_lossy(
                spec_name_attr(d, c.issuer_start, c.issuer_end, spec_oid_org()),
            );
            let cn = spec_lossy(spec_name_attr(d, c.subject_start, c.subject_end, spec_oid_cn()));
            let common_name = if cn.len() == 0 {
                spec_lossy(spec_name_attr(d, c.issuer_start, c.issuer_end, spec_oid_cn()))
            } else {
                cn
            };
            (issuer_org, common_name)
        },
    }
}

/// Extract Organization (issuer) and Common Name from a certificate.
pub fn extract_cert_names(d: &[u8]) -> (r: (Vec<u8>, Vec<u8>))
    ensures
        r.0@ == spec_cert_names(d@).0,
        r.1@ == spec_cert_names(d@).1,
{
    let parts = match parse_cert(d) {
        None => {
            return (Vec::new(), Vec::new());
        },
        Some(p) => p,
    };
    let org_oid = oid_org();
    let cn_oid = oid_cn();
    let raw_org = name_attr(d, parts.issuer_start, parts.issuer_end, &org_oid);
    let issuer_org = utf8_lossy(raw_org.as_slice());
    let raw_cn = name_attr(d, parts.subject_start, parts.subject_end, &cn_oid);
    let cn = utf8_lossy(raw_cn.as_slice());
    let common_name = if cn.len() == 0 {
        let raw_icn = name_attr(d, parts.issuer_start, parts.issuer_end, &cn_oid);
        utf8_lossy(raw_icn.as_slice())
    } else {
        cn
    };
    (issuer_org, common_name)
}

/// The raw subject public key of the leaf certificate.
pub open spec fn spec_leaf_pubkey(d: Seq<u8>) -> Option<Seq<u8>> {
    match spec_parse_cert(d) {
        None => None,
        Some(c) => Some(c.pubkey),
    }
}

/// Recover the raw SEC1 public-key bytes from a leaf certificate.
pub fn leaf_pubkey(d: &[u8]) -> (r: Option<Vec<u8>>)
    ensures
        match r {
            Some(v) => spec_leaf_pubkey(d@) == Some(v@),
            None => spec_leaf_pubkey(d@) is None,
        },
{
    match parse_cert(d) {
        None => None,
        Some(p) => Some(p.pubkey),
    }
}

} // verus!
