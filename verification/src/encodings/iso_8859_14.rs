//! Index tables for the iso-8859-14 single-byte encoding: the forward
//! table maps high bytes to code points (0xFFFF marks an unassigned
//! byte), the two-level backward tables map code points to bytes, and a
//! linear fallback scans the forward table instead.
use vstd::prelude::*;
use crate::encodings::{sb_opt, sb_lin, sb_scan};

verus! {

/// The code point for each byte from 0x80 up; 0xFFFF where the byte is
/// unassigned.
pub open spec fn forward_seq() -> Seq<u16> {
    seq![
        128u16, 129, 130, 131, 132, 133, 134, 135, 136, 137, 138, 139,
        140, 141, 142, 143, 144, 145, 146, 147, 148, 149, 150, 151,
        152, 153, 154, 155, 156, 157, 158, 159, 160, 7682, 7683, 163,
        266, 267, 7690, 167, 7808, 169, 7810, 7691, 7922, 173, 174, 376,
        7710, 7711, 288, 289, 7744, 7745, 182, 7766, 7809, 7767, 7811, 7776,
        7923, 7812, 7813, 7777, 192, 193, 194, 195, 196, 197, 198, 199,
        200, 201, 202, 203, 204, 205, 206, 207, 372, 209, 210, 211,
        212, 213, 214, 7786, 216, 217, 218, 219, 220, 221, 374, 223,
        224, 225, 226, 227, 228, 229, 230, 231, 232, 233, 234, 235,
        236, 237, 238, 239, 373, 241, 242, 243, 244, 245, 246, 7787,
        248, 249, 250, 251, 252, 253, 375, 255,
    ]
}

/// The flat lower level of the backward table; 0 marks a missing
/// mapping.
pub open spec fn lower_seq() -> Seq<u8> {
    seq![
        0u8, 0, 0, 0, 0, 0, 0, 0, 0, 0, 0, 0,
        0, 0, 0, 0, 0, 0, 0, 0, 0, 0, 0, 0,
        0, 0, 0, 0, 0, 0, 0, 0, 0, 0, 0, 0,
        0, 0, 0, 0, 0, 0, 0, 0, 0, 0, 0, 0,
        0, 0, 0, 0, 0, 0, 0, 0, 0, 0, 0, 0,
        0, 0, 0, 0, 168, 184, 170, 186, 189, 190, 0, 0,
        0, 0, 0, 0, 0, 0, 0, 0, 0, 0, 0, 0,
        0, 0, 0, 0, 0, 0, 0, 0, 0, 0, 0, 0,
        0, 0, 0, 0, 0, 0, 0, 0, 0, 0, 0, 0,
        0, 0, 0, 0, 0, 0, 0, 0, 0, 0, 0, 0,
        0, 0, 0, 0, 0, 0, 0, 0, 208, 240, 222, 254,
        175, 0, 0, 0, 0, 0, 0, 0, 180, 181, 0, 0,
        0, 0, 0, 0, 0, 0, 0, 0, 0, 0, 0, 0,
        0, 0, 0, 0, 0, 0, 183, 185, 0, 0, 0, 0,
        0, 0, 0, 0, 187, 191, 0, 0, 0, 0, 0, 0,
        0, 0, 215, 247, 0, 0, 0, 0, 0, 0, 0, 0,
        0, 0, 0, 0, 0, 0, 0, 0, 0, 0, 0, 0,
        164, 165, 0, 0, 0, 0, 0, 0, 0, 0, 0, 0,
        0, 0, 0, 0, 0, 0, 0, 0, 0, 0, 178, 179,
        0, 0, 0, 0, 0, 0, 0, 0, 0, 0, 0, 0,
        0, 0, 0, 0, 0, 0, 0, 0, 0, 0, 0, 0,
        0, 0, 0, 0, 0, 0, 161, 162, 0, 0, 0, 0,
        0, 0, 166, 171, 0, 0, 0, 0, 0, 0, 0, 0,
        0, 0, 0, 0, 0, 0, 0, 0, 0, 0, 176, 177,
        0, 0, 0, 0, 0, 0, 0, 0, 0, 0, 0, 0,
        0, 0, 0, 0, 0, 0, 0, 0, 0, 0, 0, 0,
        0, 0, 0, 0, 0, 0, 0, 0, 0, 0, 0, 0,
        0, 0, 0, 0, 0, 0, 0, 0, 0, 0, 0, 0,
        0, 0, 172, 188, 0, 0, 0, 0, 0, 0, 0, 0,
        0, 0, 0, 0, 128, 129, 130, 131, 132, 133, 134, 135,
        136, 137, 138, 139, 140, 141, 142, 143, 144, 145, 146, 147,
        148, 149, 150, 151, 152, 153, 154, 155, 156, 157, 158, 159,
        160, 0, 0, 163, 0, 0, 0, 167, 0, 169, 0, 0,
        0, 173, 174, 0, 0, 0, 0, 0, 0, 0, 182, 0,
        0, 0, 0, 0, 0, 0, 0, 0, 192, 193, 194, 195,
        196, 197, 198, 199, 200, 201, 202, 203, 204, 205, 206, 207,
        0, 209, 210, 211, 212, 213, 214, 0, 216, 217, 218, 219,
        220, 221, 0, 223, 224, 225, 226, 227, 228, 229, 230, 231,
        232, 233, 234, 235, 236, 237, 238, 239, 0, 241, 242, 243,
        244, 245, 246, 0, 248, 249, 250, 251, 252, 253, 0, 255,
    ]
}

/// The page index of the backward table: an offset into the lower
/// level per 32-code-point page.
pub open spec fn upper_seq() -> Seq<u16> {
    seq![
        0u16, 0, 352, 416, 194, 76, 0, 0, 0, 0, 0, 0,
        0, 0, 0, 0, 0, 0, 0, 0, 0, 0, 0, 0,
        0, 0, 0, 0, 0, 0, 0, 0, 0, 0, 0, 0,
        0, 0, 0, 0, 0, 0, 0, 0, 0, 0, 0, 0,
        0, 0, 0, 0, 0, 0, 0, 0, 0, 0, 0, 0,
        0, 0, 0, 0, 0, 0, 0, 0, 0, 0, 0, 0,
        0, 0, 0, 0, 0, 0, 0, 0, 0, 0, 0, 0,
        0, 0, 0, 0, 0, 0, 0, 0, 0, 0, 0, 0,
        0, 0, 0, 0, 0, 0, 0, 0, 0, 0, 0, 0,
        0, 0, 0, 0, 0, 0, 0, 0, 0, 0, 0, 0,
        256, 140, 64, 288,
    ]
}

/// The largest code point this index maps.
pub open spec fn max_code() -> u32 {
    7923
}

/// One bit per 256-code-point range with any mapping in it.
pub open spec fn range_mask() -> u32 {
    1073741827
}

/// The page width the range mask is keyed on.
pub open spec fn mask_shift() -> u32 {
    8
}

/// The page width of the two-level backward table.
pub open spec fn page_shift() -> u32 {
    6
}

/// The in-page mask of the two-level backward table.
pub open spec fn page_mask() -> u32 {
    63
}

fn forward_vec() -> (r: Vec<u16>)
    ensures
        r@ == forward_seq(),
{
    let v: Vec<u16> = vec![
        128u16, 129, 130, 131, 132, 133, 134, 135, 136, 137, 138, 139,
        140, 141, 142, 143, 144, 145, 146, 147, 148, 149, 150, 151,
        152, 153, 154, 155, 156, 157, 158, 159, 160, 7682, 7683, 163,
        266, 267, 7690, 167, 7808, 169, 7810, 7691, 7922, 173, 174, 376,
        7710, 7711, 288, 289, 7744, 7745, 182, 7766, 7809, 7767, 7811, 7776,
        7923, 7812, 7813, 7777, 192, 193, 194, 195, 196, 197, 198, 199,
        200, 201, 202, 203, 204, 205, 206, 207, 372, 209, 210, 211,
        212, 213, 214, 7786, 216, 217, 218, 219, 220, 221, 374, 223,
        224, 225, 226, 227, 228, 229, 230, 231, 232, 233, 234, 235,
        236, 237, 238, 239, 373, 241, 242, 243, 244, 245, 246, 7787,
        248, 249, 250, 251, 252, 253, 375, 255,
    ];
    proof {
        assert(v@ =~= forward_seq());
    }
    v
}

fn lower_vec() -> (r: Vec<u8>)
    ensures
        r@ == lower_seq(),
{
    let v: Vec<u8> = vec![
        0u8, 0, 0, 0, 0, 0, 0, 0, 0, 0, 0, 0,
        0, 0, 0, 0, 0, 0, 0, 0, 0, 0, 0, 0,
        0, 0, 0, 0, 0, 0, 0, 0, 0, 0, 0, 0,
        0, 0, 0, 0, 0, 0, 0, 0, 0, 0, 0, 0,
        0, 0, 0, 0, 0, 0, 0, 0, 0, 0, 0, 0,
        0, 0, 0, 0, 168, 184, 170, 186, 189, 190, 0, 0,
        0, 0, 0, 0, 0, 0, 0, 0, 0, 0, 0, 0,
        0, 0, 0, 0, 0, 0, 0, 0, 0, 0, 0, 0,
        0, 0, 0, 0, 0, 0, 0, 0, 0, 0, 0, 0,
        0, 0, 0, 0, 0, 0, 0, 0, 0, 0, 0, 0,
        0, 0, 0, 0, 0, 0, 0, 0, 208, 240, 222, 254,
        175, 0, 0, 0, 0, 0, 0, 0, 180, 181, 0, 0,
        0, 0, 0, 0, 0, 0, 0, 0, 0, 0, 0, 0,
        0, 0, 0, 0, 0, 0, 183, 185, 0, 0, 0, 0,
        0, 0, 0, 0, 187, 191, 0, 0, 0, 0, 0, 0,
        0, 0, 215, 247, 0, 0, 0, 0, 0, 0, 0, 0,
        0, 0, 0, 0, 0, 0, 0, 0, 0, 0, 0, 0,
        164, 165, 0, 0, 0, 0, 0, 0, 0, 0, 0, 0,
        0, 0, 0, 0, 0, 0, 0, 0, 0, 0, 178, 179,
        0, 0, 0, 0, 0, 0, 0, 0, 0, 0, 0, 0,
        0, 0, 0, 0, 0, 0, 0, 0, 0, 0, 0, 0,
        0, 0, 0, 0, 0, 0, 161, 162, 0, 0, 0, 0,
        0, 0, 166, 171, 0, 0, 0, 0, 0, 0, 0, 0,
        0, 0, 0, 0, 0, 0, 0, 0, 0, 0, 176, 177,
        0, 0, 0, 0, 0, 0, 0, 0, 0, 0, 0, 0,
        0, 0, 0, 0, 0, 0, 0, 0, 0, 0, 0, 0,
        0, 0, 0, 0, 0, 0, 0, 0, 0, 0, 0, 0,
        0, 0, 0, 0, 0, 0, 0, 0, 0, 0, 0, 0,
        0, 0, 172, 188, 0, 0, 0, 0, 0, 0, 0, 0,
        0, 0, 0, 0, 128, 129, 130, 131, 132, 133, 134, 135,
        136, 137, 138, 139, 140, 141, 142, 143, 144, 145, 146, 147,
        148, 149, 150, 151, 152, 153, 154, 155, 156, 157, 158, 159,
        160, 0, 0, 163, 0, 0, 0, 167, 0, 169, 0, 0,
        0, 173, 174, 0, 0, 0, 0, 0, 0, 0, 182, 0,
        0, 0, 0, 0, 0, 0, 0, 0, 192, 193, 194, 195,
        196, 197, 198, 199, 200, 201, 202, 203, 204, 205, 206, 207,
        0, 209, 210, 211, 212, 213, 214, 0, 216, 217, 218, 219,
        220, 221, 0, 223, 224, 225, 226, 227, 228, 229, 230, 231,
        232, 233, 234, 235, 236, 237, 238, 239, 0, 241, 242, 243,
        244, 245, 246, 0, 248, 249, 250, 251, 252, 253, 0, 255,
    ];
    proof {
        assert(v@ =~= lower_seq());
    }
    v
}

fn upper_vec() -> (r: Vec<u16>)
    ensures
        r@ == upper_seq(),
{
    let v: Vec<u16> = vec![
        0u16, 0, 352, 416, 194, 76, 0, 0, 0, 0, 0, 0,
        0, 0, 0, 0, 0, 0, 0, 0, 0, 0, 0, 0,
        0, 0, 0, 0, 0, 0, 0, 0, 0, 0, 0, 0,
        0, 0, 0, 0, 0, 0, 0, 0, 0, 0, 0, 0,
        0, 0, 0, 0, 0, 0, 0, 0, 0, 0, 0, 0,
        0, 0, 0, 0, 0, 0, 0, 0, 0, 0, 0, 0,
        0, 0, 0, 0, 0, 0, 0, 0, 0, 0, 0, 0,
        0, 0, 0, 0, 0, 0, 0, 0, 0, 0, 0, 0,
        0, 0, 0, 0, 0, 0, 0, 0, 0, 0, 0, 0,
        0, 0, 0, 0, 0, 0, 0, 0, 0, 0, 0, 0,
        256, 140, 64, 288,
    ];
    proof {
        assert(v@ =~= upper_seq());
    }
    v
}

/// The code point for the byte `code` of this index.
pub fn forward(code: u8) -> (r: u16)
    requires
        code >= 0x80,
    ensures
        r == forward_seq()[code - 0x80],
{
    let table = forward_vec();
    table[(code - 0x80) as usize]
}

/// The byte for code point `code`, through the two-level backward
/// table; 0 when the code point has no mapping.
pub fn backward(code: u32) -> (r: u8)
    ensures
        r == sb_opt(lower_seq(), upper_seq(), page_shift(), page_mask(), code),
{
    let upper = upper_vec();
    let lower = lower_vec();
    let offset = (code >> 6) as usize;
    let base: usize = if offset < upper.len() {
        upper[offset] as usize
    } else {
        0
    };
    proof {
        crate::encodings::lemma_and_mask_bound(code, 63);
    }
    let idx: usize = base + ((code & 63) as usize);
    if idx < lower.len() {
        lower[idx]
    } else {
        0
    }
}

/// The byte for code point `code`, by a linear scan of the forward
/// table; 0 when the code point has no mapping. The range guard culls
/// code points outside every mapped page first.
pub fn backward_linear(code: u32) -> (r: u8)
    ensures
        r == sb_lin(forward_seq(), max_code(), range_mask(), mask_shift(), code),
{
    if code > 7923 {
        return 0;
    }
    let page: u32 = code >> 8;
    if page >= 32 {
        return 0;
    }
    if ((1073741827u32 >> page) & 1) == 0 {
        return 0;
    }
    let table = forward_vec();
    let mut i: usize = 0;
    while i < 128
        invariant
            i <= 128,
            table@ == forward_seq(),
            forward_seq().len() == 128,
            sb_lin(forward_seq(), max_code(), range_mask(), mask_shift(), code) == sb_scan(
                forward_seq(),
                code,
                0,
            ),
            sb_scan(forward_seq(), code, 0) == sb_scan(forward_seq(), code, i as int),
        decreases 128 - i,
    {
        if table[i] as u32 == code {
            proof {
                assert(sb_scan(forward_seq(), code, i as int) == (0x80 + i as int) as u8);
            }
            return 0x80 + (i as u8);
        }
        i = i + 1;
    }
    0
}

} // verus!
