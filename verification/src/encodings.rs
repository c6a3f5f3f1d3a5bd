//! The single-byte encoding indexes and the lookup schemes they share:
//! a two-level backward table and a linear scan of the forward table.
use vstd::prelude::*;

pub mod cp437;
pub mod iso_8859_14;
pub mod iso_8859_16;
pub mod iso_8859_6;
pub mod windows_1255;
pub mod windows_1257;

verus! {

/// The two-level backward lookup: the high bits of the code point pick
/// a page offset, the low bits index into the flat lower table; 0
/// stands for no mapping, as it does for pages outside the index.
pub open spec fn sb_opt(lower: Seq<u8>, upper: Seq<u16>, pshift: u32, pmask: u32, code: u32) -> u8 {
    let offset = (code >> pshift) as int;
    let base: int = if offset < upper.len() {
        upper[offset] as int
    } else {
        0
    };
    let idx = base + (code & pmask) as int;
    if idx < lower.len() {
        lower[idx]
    } else {
        0
    }
}

/// The first byte whose forward entry is `code`, scanning from `i`; 0
/// when none is.
pub open spec fn sb_scan(fwd: Seq<u16>, code: u32, i: int) -> u8
    decreases 128 - i,
{
    if i < 0 || i >= 128 || i >= fwd.len() {
        0
    } else if fwd[i] as u32 == code {
        (0x80 + i) as u8
    } else {
        sb_scan(fwd, code, i + 1)
    }
}

/// The linear backward lookup: code points beyond the largest mapped
/// one, or in a range the mask rules out, have no mapping; the rest
/// are scanned for in the forward table.
pub open spec fn sb_lin(fwd: Seq<u16>, maxc: u32, mask: u32, shift: u32, code: u32) -> u8 {
    if code > maxc {
        0
    } else {
        let page = code >> shift;
        if page >= 32 {
            0
        } else if ((mask >> page) & 1) == 0 {
            0
        } else {
            sb_scan(fwd, code, 0)
        }
    }
}

/// Masking keeps a value at or under the mask.
pub proof fn lemma_and_mask_bound(code: u32, m: u32)
    ensures
        (code & m) <= m,
{
    assert((code & m) <= m) by (bit_vector);
}

} // verus!
