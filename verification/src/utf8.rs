//! UTF-8 validation and lossy decoding over raw bytes: a well-formed
//! scalar is copied, and each maximal invalid subpart is replaced by
//! the three bytes of the replacement character, as the standard
//! library's lossy conversion does.

use vstd::prelude::*;

verus! {

/// Whether `b` is a UTF-8 continuation byte.
pub open spec fn spec_is_cont(b: u8) -> bool {
    0x80 <= b <= 0xBF
}

/// The length of the well-formed UTF-8 scalar encoded at `pos`, if any.
pub open spec fn spec_utf8_step(d: Seq<u8>, pos: int) -> Option<int> {
    if pos < 0 || pos >= d.len() {
        None
    } else {
        let b0 = d[pos];
        if b0 < 0x80 {
            Some(1)
        } else if 0xC2 <= b0 <= 0xDF {
            if pos + 2 <= d.len() && spec_is_cont(d[pos + 1]) {
                Some(2)
            } else {
                None
            }
        } else if 0xE0 <= b0 <= 0xEF {
            let lo: u8 = if b0 == 0xE0 {
                0xA0
            } else {
                0x80
            };
            let hi: u8 = if b0 == 0xED {
                0x9F
            } else {
                0xBF
            };
            if pos + 3 <= d.len() && lo <= d[pos + 1] <= hi && spec_is_cont(d[pos + 2]) {
                Some(3)
            } else {
                None
            }
        } else if 0xF0 <= b0 <= 0xF4 {
            let lo: u8 = if b0 == 0xF0 {
                0x90
            } else {
                0x80
            };
            let hi: u8 = if b0 == 0xF4 {
                0x8F
            } else {
                0xBF
            };
            if pos + 4 <= d.len() && lo <= d[pos + 1] <= hi && spec_is_cont(d[pos + 2])
                && spec_is_cont(d[pos + 3]) {
                Some(4)
            } else {
                None
            }
        } else {
            None
        }
    }
}

/// Whether the bytes from `pos` onward are well-formed UTF-8.
pub open spec fn spec_valid_utf8_from(d: Seq<u8>, pos: int) -> bool
    decreases d.len() - pos,
{
    if pos >= d.len() {
        true
    } else {
        match spec_utf8_step(d, pos) {
            Some(k) => spec_valid_utf8_from(d, pos + k),
            None => false,
        }
    }
}

/// Whether a byte sequence is well-formed UTF-8.
pub open spec fn spec_valid_utf8(d: Seq<u8>) -> bool {
    spec_valid_utf8_from(d, 0)
}

/// The length of the maximal invalid subpart at `pos`: the lead byte
/// together with however many of its continuation bytes are in range.
pub open spec fn spec_invalid_len(d: Seq<u8>, pos: int) -> int {
    let b0 = d[pos];
    if 0xE0 <= b0 <= 0xEF {
        let lo: u8 = if b0 == 0xE0 {
            0xA0
        } else {
            0x80
        };
        let hi: u8 = if b0 == 0xED {
            0x9F
        } else {
            0xBF
        };
        if pos + 2 <= d.len() && lo <= d[pos + 1] <= hi {
            2
        } else {
            1
        }
    } else if 0xF0 <= b0 <= 0xF4 {
        let lo: u8 = if b0 == 0xF0 {
            0x90
        } else {
            0x80
        };
        let hi: u8 = if b0 == 0xF4 {
            0x8F
        } else {
            0xBF
        };
        if pos + 2 <= d.len() && lo <= d[pos + 1] <= hi {
            if pos + 3 <= d.len() && spec_is_cont(d[pos + 2]) {
                3
            } else {
                2
            }
        } else {
            1
        }
    } else {
        1
    }
}

/// The replacement character, as its three UTF-8 bytes.
pub open spec fn spec_replacement() -> Seq<u8> {
    seq![0xEFu8, 0xBF, 0xBD]
}

/// The lossy UTF-8 decoding of the bytes from `pos` onward: valid
/// scalars are kept, and each maximal invalid subpart becomes the
/// replacement character.
pub open spec fn spec_lossy_from(d: Seq<u8>, pos: int) -> Seq<u8>
    decreases d.len() - pos,
{
    if pos < 0 || pos >= d.len() {
        Seq::empty()
    } else {
        match spec_utf8_step(d, pos) {
            Some(k) => d.subrange(pos, pos + k) + spec_lossy_from(d, pos + k),
            None => spec_replacement() + spec_lossy_from(d, pos + spec_invalid_len(d, pos)),
        }
    }
}

/// The lossy UTF-8 decoding of a byte sequence.
pub open spec fn spec_lossy(d: Seq<u8>) -> Seq<u8> {
    spec_lossy_from(d, 0)
}

fn utf8_step(d: &[u8], pos: usize) -> (r: Option<usize>)
    ensures
        match r {
            Some(k) => spec_utf8_step(d@, pos as int) == Some(k as int) && pos + k <= d@.len()
                && k >= 1,
            None => spec_utf8_step(d@, pos as int) is None,
        },
{
    let n = d.len();
    if pos >= n {
        return None;
    }
    let b0 = d[pos];
    if b0 < 0x80 {
        Some(1)
    } else if 0xC2 <= b0 && b0 <= 0xDF {
        if n - pos >= 2 && 0x80 <= d[pos + 1] && d[pos + 1] <= 0xBF {
            Some(2)
        } else {
            None
        }
    } else if 0xE0 <= b0 && b0 <= 0xEF {
        let lo: u8 = if b0 == 0xE0 {
            0xA0
        } else {
            0x80
        };
        let hi: u8 = if b0 == 0xED {
            0x9F
        } else {
            0xBF
        };
        if n - pos >= 3 && lo <= d[pos + 1] && d[pos + 1] <= hi && 0x80 <= d[pos + 2] && d[pos + 2]
            <= 0xBF {
            Some(3)
        } else {
            None
        }
    } else if 0xF0 <= b0 && b0 <= 0xF4 {
        let lo: u8 = if b0 == 0xF0 {
            0x90
        } else {
            0x80
        };
        let hi: u8 = if b0 == 0xF4 {
            0x8F
        } else {
            0xBF
        };
        if n - pos >= 4 && lo <= d[pos + 1] && d[pos + 1] <= hi && 0x80 <= d[pos + 2] && d[pos + 2]
            <= 0xBF && 0x80 <= d[pos + 3] && d[pos + 3] <= 0xBF {
            Some(4)
        } else {
            None
        }
    } else {
        None
    }
}

/// Whether a byte slice is well-formed UTF-8.
pub fn is_valid_utf8(d: &[u8]) -> (r: bool)
    ensures
        r == spec_valid_utf8(d@),
{
    valid_from(d, 0)
}

fn valid_from(d: &[u8], pos: usize) -> (r: bool)
    ensures
        r == spec_valid_utf8_from(d@, pos as int),
    decreases d@.len() - pos,
{
    if pos >= d.len() {
        true
    } else {
        match utf8_step(d, pos) {
            Some(k) => valid_from(d, pos + k),
            None => false,
        }
    }
}

fn invalid_len(d: &[u8], pos: usize) -> (r: usize)
    requires
        pos < d@.len(),
    ensures
        r == spec_invalid_len(d@, pos as int),
        1 <= r <= 3,
        pos + r <= d@.len(),
{
    let n = d.len();
    let b0 = d[pos];
    if 0xE0 <= b0 && b0 <= 0xEF {
        let lo: u8 = if b0 == 0xE0 {
            0xA0
        } else {
            0x80
        };
        let hi: u8 = if b0 == 0xED {
            0x9F
        } else {
            0xBF
        };
        if n - pos >= 2 && lo <= d[pos + 1] && d[pos + 1] <= hi {
            2
        } else {
            1
        }
    } else if 0xF0 <= b0 && b0 <= 0xF4 {
        let lo: u8 = if b0 == 0xF0 {
            0x90
        } else {
            0x80
        };
        let hi: u8 = if b0 == 0xF4 {
            0x8F
        } else {
            0xBF
        };
        if n - pos >= 2 && lo <= d[pos + 1] && d[pos + 1] <= hi {
            if n - pos >= 3 && 0x80 <= d[pos + 2] && d[pos + 2] <= 0xBF {
                3
            } else {
                2
            }
        } else {
            1
        }
    } else {
        1
    }
}

/// Decode a byte slice as UTF-8 with lossy replacement, returning the
/// decoded bytes.
pub fn utf8_lossy(d: &[u8]) -> (r: Vec<u8>)
    ensures
        r@ == spec_lossy(d@),
{
    lossy_from(d, 0)
}

fn lossy_from(d: &[u8], pos: usize) -> (r: Vec<u8>)
    ensures
        r@ == spec_lossy_from(d@, pos as int),
    decreases d@.len() - pos,
{
    if pos >= d.len() {
        return Vec::new();
    }
    match utf8_step(d, pos) {
        Some(k) => {
            let mut out = crate::bytes::sub_vec(d, pos, pos + k);
            let mut rest = lossy_from(d, pos + k);
            out.append(&mut rest);
            out
        },
        None => {
            let skip = invalid_len(d, pos);
            let mut out: Vec<u8> = Vec::new();
            out.push(0xEF);
            out.push(0xBF);
            out.push(0xBD);
            let mut rest = lossy_from(d, pos + skip);
            out.append(&mut rest);
            proof {
                assert(out@ =~= spec_replacement() + spec_lossy_from(d@, pos + spec_invalid_len(
                    d@, pos as int)));
            }
            out
        },
    }
}

} // verus!
