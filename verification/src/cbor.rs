//! CBOR navigation over raw bytes: reading item heads, skipping whole
//! items, and looking up map entries by integer or text key. Only
//! definite-length items are accepted; indefinite lengths and reserved
//! additional-information values abort the walk.

use vstd::prelude::*;
use crate::bytes::{spec_u16_be, spec_u32_be, spec_u64_be, u16_be, u32_be, u64_be, range_eq};

verus! {

/// The head of the CBOR item at `pos`: its major type, its argument
/// value, and the head's length in bytes.
pub open spec fn spec_cbor_head(d: Seq<u8>, pos: int) -> Option<(int, int, int)> {
    if pos < 0 || pos >= d.len() {
        None
    } else {
        let major = d[pos] / 32;
        let ai = d[pos] % 32;
        if ai < 24 {
            Some((major as int, ai as int, 1))
        } else if ai == 24 {
            if pos + 2 <= d.len() {
                Some((major as int, d[pos + 1] as int, 2))
            } else {
                None
            }
        } else if ai == 25 {
            if pos + 3 <= d.len() {
                Some((major as int, spec_u16_be(d, pos + 1), 3))
            } else {
                None
            }
        } else if ai == 26 {
            if pos + 5 <= d.len() {
                Some((major as int, spec_u32_be(d, pos + 1), 5))
            } else {
                None
            }
        } else if ai == 27 {
            if pos + 9 <= d.len() {
                Some((major as int, spec_u64_be(d, pos + 1), 9))
            } else {
                None
            }
        } else {
            None
        }
    }
}

pub fn cbor_head(d: &[u8], pos: usize) -> (r: Option<(u8, u64, usize)>)
    ensures
        match r {
            Some(h) => spec_cbor_head(d@, pos as int) == Some(
                (h.0 as int, h.1 as int, h.2 as int),
            ) && h.0 < 8 && pos + h.2 <= d@.len(),
            None => spec_cbor_head(d@, pos as int) is None,
        },
{
    let n = d.len();
    if pos >= n {
        return None;
    }
    let major = d[pos] / 32;
    let ai = d[pos] % 32;
    if ai < 24 {
        Some((major, ai as u64, 1))
    } else if ai == 24 {
        if n - pos >= 2 {
            Some((major, d[pos + 1] as u64, 2))
        } else {
            None
        }
    } else if ai == 25 {
        if n - pos >= 3 {
            Some((major, u16_be(d, pos + 1) as u64, 3))
        } else {
            None
        }
    } else if ai == 26 {
        if n - pos >= 5 {
            Some((major, u32_be(d, pos + 1) as u64, 5))
        } else {
            None
        }
    } else if ai == 27 {
        if n - pos >= 9 {
            Some((major, u64_be(d, pos + 1), 9))
        } else {
            None
        }
    } else {
        None
    }
}

/// The position after skipping `n` whole items starting at `pos`.
/// Since every item takes at least one byte, more outstanding items
/// than remaining bytes cannot be completed.
pub open spec fn spec_cbor_skip_n(d: Seq<u8>, pos: int, n: int) -> Option<int>
    decreases d.len() - pos, n,
{
    if n <= 0 {
        Some(pos)
    } else if pos < 0 || n > d.len() - pos {
        None
    } else {
        match spec_cbor_head(d, pos) {
            None => None,
            Some((major, v, hl)) => {
                let p2 = pos + hl;
                if major == 0 || major == 1 || major == 7 {
                    spec_cbor_skip_n(d, p2, n - 1)
                } else if major == 2 || major == 3 {
                    if v > d.len() - p2 {
                        None
                    } else {
                        spec_cbor_skip_n(d, p2 + v, n - 1)
                    }
                } else if major == 4 {
                    if v > d.len() - p2 {
                        None
                    } else {
                        spec_cbor_skip_n(d, p2, n - 1 + v)
                    }
                } else if major == 5 {
                    if 2 * v > d.len() - p2 {
                        None
                    } else {
                        spec_cbor_skip_n(d, p2, n - 1 + 2 * v)
                    }
                } else {
                    spec_cbor_skip_n(d, p2, n)
                }
            },
        }
    }
}

/// The position after one whole item at `pos`.
pub open spec fn spec_cbor_skip(d: Seq<u8>, pos: int) -> Option<int> {
    spec_cbor_skip_n(d, pos, 1)
}

pub fn cbor_skip_n(d: &[u8], pos: usize, n: usize) -> (r: Option<usize>)
    requires
        pos <= d@.len(),
    ensures
        match r {
            Some(p) => spec_cbor_skip_n(d@, pos as int, n as int) == Some(p as int) && p
                <= d@.len(),
            None => spec_cbor_skip_n(d@, pos as int, n as int) is None,
        },
    decreases d@.len() - pos, n,
{
    let len = d.len();
    if n == 0 {
        return Some(pos);
    }
    if n > len - pos {
        return None;
    }
    match cbor_head(d, pos) {
        None => None,
        Some((major, v, hl)) => {
            let p2 = pos + hl;
            if major == 0 || major == 1 || major == 7 {
                cbor_skip_n(d, p2, n - 1)
            } else if major == 2 || major == 3 {
                if v > (len - p2) as u64 {
                    None
                } else {
                    cbor_skip_n(d, p2 + v as usize, n - 1)
                }
            } else if major == 4 {
                if v > (len - p2) as u64 {
                    None
                } else {
                    let extra = v as usize;
                    if n - 1 > len - p2 - extra {
                        proof {
                            assert(spec_cbor_skip_n(d@, p2 as int, n - 1 + v) is None);
                        }
                        None
                    } else {
                        cbor_skip_n(d, p2, n - 1 + extra)
                    }
                }
            } else if major == 5 {
                if v > ((len - p2) / 2) as u64 {
                    proof {
                        assert(2 * (v as int) > d@.len() - p2);
                    }
                    None
                } else {
                    let extra = 2 * (v as usize);
                    proof {
                        assert(extra == 2 * (v as int) && 2 * (v as int) <= d@.len() - p2);
                    }
                    if n - 1 > len - p2 - extra {
                        proof {
                            assert(spec_cbor_skip_n(d@, p2 as int, n - 1 + 2 * (v as int))
                                is None);
                        }
                        None
                    } else {
                        cbor_skip_n(d, p2, n - 1 + extra)
                    }
                }
            } else {
                cbor_skip_n(d, p2, n)
            }
        },
    }
}

/// One whole item skipped from `pos`.
pub fn cbor_skip(d: &[u8], pos: usize) -> (r: Option<usize>)
    requires
        pos <= d@.len(),
    ensures
        match r {
            Some(p) => spec_cbor_skip(d@, pos as int) == Some(p as int) && p <= d@.len(),
            None => spec_cbor_skip(d@, pos as int) is None,
        },
{
    cbor_skip_n(d, pos, 1)
}

/// Whether the item at `pos` is a text string equal to `key`.
pub open spec fn spec_text_at(d: Seq<u8>, pos: int, key: Seq<u8>) -> bool {
    match spec_cbor_head(d, pos) {
        Some((major, v, hl)) => major == 3 && v == key.len() && pos + hl + v <= d.len()
            && d.subrange(pos + hl, pos + hl + v) == key,
        None => false,
    }
}

pub fn text_at(d: &[u8], pos: usize, key: &Vec<u8>) -> (r: bool)
    ensures
        r == spec_text_at(d@, pos as int, key@),
{
    match cbor_head(d, pos) {
        Some((major, v, hl)) => major == 3 && v == key.len() as u64 && v <= (d.len() - (pos
            + hl)) as u64 && range_eq(d, pos + hl, key.as_slice()),
        None => false,
    }
}

/// Whether the item at `pos` is the unsigned integer `k`.
pub open spec fn spec_uint_at(d: Seq<u8>, pos: int, k: int) -> bool {
    match spec_cbor_head(d, pos) {
        Some((major, v, hl)) => major == 0 && v == k,
        None => false,
    }
}

pub fn uint_at(d: &[u8], pos: usize, k: u64) -> (r: bool)
    ensures
        r == spec_uint_at(d@, pos as int, k as int),
{
    match cbor_head(d, pos) {
        Some((major, v, hl)) => major == 0 && v == k,
        None => false,
    }
}

/// The position of the value whose text key equals `key`, scanning
/// `cnt` entries from `epos`; the first match wins.
pub open spec fn spec_map_scan_text(d: Seq<u8>, epos: int, cnt: int, key: Seq<u8>) -> Option<int>
    decreases cnt,
{
    if cnt <= 0 {
        None
    } else {
        match spec_cbor_skip(d, epos) {
            None => None,
            Some(vpos) => if spec_text_at(d, epos, key) {
                Some(vpos)
            } else {
                match spec_cbor_skip(d, vpos) {
                    None => None,
                    Some(next) => spec_map_scan_text(d, next, cnt - 1, key),
                }
            },
        }
    }
}

/// The position of the value under text key `key` of the map at
/// `mpos`, if the item there is a map holding one.
pub open spec fn spec_map_value_text(d: Seq<u8>, mpos: int, key: Seq<u8>) -> Option<int> {
    match spec_cbor_head(d, mpos) {
        Some((major, cnt, hl)) => if major == 5 {
            spec_map_scan_text(d, mpos + hl, cnt, key)
        } else {
            None
        },
        None => None,
    }
}

fn map_scan_text(d: &[u8], epos: usize, cnt: u64, key: &Vec<u8>) -> (r: Option<usize>)
    requires
        epos <= d@.len(),
    ensures
        match r {
            Some(p) => spec_map_scan_text(d@, epos as int, cnt as int, key@) == Some(p as int)
                && p <= d@.len(),
            None => spec_map_scan_text(d@, epos as int, cnt as int, key@) is None,
        },
    decreases cnt,
{
    if cnt == 0 {
        return None;
    }
    match cbor_skip(d, epos) {
        None => None,
        Some(vpos) => if text_at(d, epos, key) {
            Some(vpos)
        } else {
            match cbor_skip(d, vpos) {
                None => None,
                Some(next) => map_scan_text(d, next, cnt - 1, key),
            }
        },
    }
}

/// Look up a text key in the map at `mpos`, returning the position of
/// its value.
pub fn map_value_text(d: &[u8], mpos: usize, key: &Vec<u8>) -> (r: Option<usize>)
    ensures
        match r {
            Some(p) => spec_map_value_text(d@, mpos as int, key@) == Some(p as int) && p
                <= d@.len(),
            None => spec_map_value_text(d@, mpos as int, key@) is None,
        },
{
    let n = d.len();
    match cbor_head(d, mpos) {
        Some((major, cnt, hl)) => if major == 5 {
            map_scan_text(d, mpos + hl, cnt, key)
        } else {
            None
        },
        None => None,
    }
}

/// The position of the value whose key is the unsigned integer `k`,
/// scanning `cnt` entries from `epos`.
pub open spec fn spec_map_scan_uint(d: Seq<u8>, epos: int, cnt: int, k: int) -> Option<int>
    decreases cnt,
{
    if cnt <= 0 {
        None
    } else {
        match spec_cbor_skip(d, epos) {
            None => None,
            Some(vpos) => if spec_uint_at(d, epos, k) {
                Some(vpos)
            } else {
                match spec_cbor_skip(d, vpos) {
                    None => None,
                    Some(next) => spec_map_scan_uint(d, next, cnt - 1, k),
                }
            },
        }
    }
}

/// The position of the value under unsigned-integer key `k` of the map
/// at `mpos`.
pub open spec fn spec_map_value_uint(d: Seq<u8>, mpos: int, k: int) -> Option<int> {
    match spec_cbor_head(d, mpos) {
        Some((major, cnt, hl)) => if major == 5 {
            spec_map_scan_uint(d, mpos + hl, cnt, k)
        } else {
            None
        },
        None => None,
    }
}

fn map_scan_uint(d: &[u8], epos: usize, cnt: u64, k: u64) -> (r: Option<usize>)
    requires
        epos <= d@.len(),
    ensures
        match r {
            Some(p) => spec_map_scan_uint(d@, epos as int, cnt as int, k as int) == Some(p as int)
                && p <= d@.len(),
            None => spec_map_scan_uint(d@, epos as int, cnt as int, k as int) is None,
        },
    decreases cnt,
{
    if cnt == 0 {
        return None;
    }
    match cbor_skip(d, epos) {
        None => None,
        Some(vpos) => if uint_at(d, epos, k) {
            Some(vpos)
        } else {
            match cbor_skip(d, vpos) {
                None => None,
                Some(next) => map_scan_uint(d, next, cnt - 1, k),
            }
        },
    }
}

/// Look up an unsigned-integer key in the map at `mpos`.
pub fn map_value_uint(d: &[u8], mpos: usize, k: u64) -> (r: Option<usize>)
    ensures
        match r {
            Some(p) => spec_map_value_uint(d@, mpos as int, k as int) == Some(p as int) && p
                <= d@.len(),
            None => spec_map_value_uint(d@, mpos as int, k as int) is None,
        },
{
    let n = d.len();
    match cbor_head(d, mpos) {
        Some((major, cnt, hl)) => if major == 5 {
            map_scan_uint(d, mpos + hl, cnt, k)
        } else {
            None
        },
        None => None,
    }
}

} // verus!
