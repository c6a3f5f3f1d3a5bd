//! Index tables for the iso-8859-16 single-byte encoding: the forward
//! table maps high bytes to code points (0xFFFF marks an unassigned
//! byte), the two-level backward tables map code points to bytes, and a
//! linear fallback scans the forward table instead.
use vstd::prelude::*;
use crate::encodings::{sb_opt, sb_lin, sb_scan};

verus! {

/// The code point for each byte from 0x80 up; 0xFFFF where the byte is
/// unassigned.
pub open spec fn forward_seq() -> Seq<u16> {
    seq![
        128u16, 129, 130, 131, 132, 133, 134, 135, 136, 137, 138, 139,
        140, 141, 142, 143, 144, 145, 146, 147, 148, 149, 150, 151,
        152, 153, 154, 155, 156, 157, 158, 159, 160, 260, 261, 321,
        8364, 8222, 352, 167, 353, 169, 536, 171, 377, 173, 378, 379,
        176, 177, 268, 322, 381, 8221, 182, 183, 382, 269, 537, 187,
        338, 339, 376, 380, 192, 193, 194, 258, 196, 262, 198, 199,
        200, 201, 202, 203, 204, 205, 206, 207, 272, 323, 210, 211,
        212, 336, 214, 346, 368, 217, 218, 219, 220, 280, 538, 223,
        224, 225, 226, 259, 228, 263, 230, 231, 232, 233, 234, 235,
        236, 237, 238, 239, 273, 324, 242, 243, 244, 337, 246, 347,
        369, 249, 250, 251, 252, 281, 539, 255,
    ]
}

/// The flat lower level of the backward table; 0 marks a missing
/// mapping.
pub open spec fn lower_seq() -> Seq<u8> {
    seq![
        0u8, 0, 0, 0, 0, 0, 0, 0, 0, 0, 0, 0,
        0, 0, 0, 0, 0, 0, 0, 0, 0, 0, 0, 0,
        0, 0, 0, 0, 0, 0, 0, 0, 0, 0, 0, 0,
        0, 0, 0, 0, 0, 0, 0, 0, 0, 0, 0, 0,
        0, 0, 0, 0, 0, 0, 0, 0, 0, 0, 0, 0,
        0, 0, 0, 0, 128, 129, 130, 131, 132, 133, 134, 135,
        136, 137, 138, 139, 140, 141, 142, 143, 144, 145, 146, 147,
        148, 149, 150, 151, 152, 153, 154, 155, 156, 157, 158, 159,
        160, 0, 0, 0, 0, 0, 0, 167, 0, 169, 0, 171,
        0, 173, 0, 0, 176, 177, 0, 0, 0, 0, 182, 183,
        0, 0, 0, 187, 0, 0, 0, 0, 0, 0, 0, 0,
        0, 0, 0, 0, 0, 0, 0, 0, 0, 0, 0, 0,
        0, 0, 0, 0, 170, 186, 222, 254, 0, 0, 0, 0,
        0, 0, 0, 0, 0, 0, 0, 0, 0, 0, 0, 0,
        0, 0, 0, 0, 0, 0, 0, 0, 0, 0, 0, 0,
        0, 0, 0, 0, 0, 0, 0, 0, 181, 165, 0, 0,
        0, 0, 0, 0, 0, 0, 0, 0, 0, 0, 0, 0,
        0, 0, 0, 0, 0, 0, 0, 0, 0, 0, 0, 0,
        0, 0, 0, 0, 0, 0, 0, 195, 227, 161, 162, 197,
        229, 0, 0, 0, 0, 178, 185, 0, 0, 208, 240, 0,
        0, 0, 0, 0, 0, 221, 253, 0, 0, 0, 0, 0,
        0, 0, 0, 0, 0, 0, 0, 0, 0, 0, 0, 0,
        0, 0, 0, 0, 0, 0, 0, 0, 0, 0, 0, 0,
        0, 0, 0, 0, 0, 0, 0, 0, 0, 0, 0, 0,
        0, 0, 0, 164, 0, 0, 0, 0, 0, 0, 0, 0,
        0, 0, 0, 0, 0, 0, 0, 0, 0, 0, 0, 163,
        179, 209, 241, 0, 0, 0, 0, 0, 0, 0, 0, 0,
        0, 0, 213, 245, 188, 189, 0, 0, 0, 0, 0, 0,
        215, 247, 0, 0, 0, 0, 166, 168, 0, 0, 0, 0,
        0, 0, 0, 0, 0, 0, 0, 0, 0, 0, 216, 248,
        0, 0, 0, 0, 0, 0, 190, 172, 174, 175, 191, 180,
        184, 0, 192, 193, 194, 0, 196, 0, 198, 199, 200, 201,
        202, 203, 204, 205, 206, 207, 0, 0, 210, 211, 212, 0,
        214, 0, 0, 217, 218, 219, 220, 0, 0, 223, 224, 225,
        226, 0, 228, 0, 230, 231, 232, 233, 234, 235, 236, 237,
        238, 239, 0, 0, 242, 243, 244, 0, 246, 0, 0, 249,
        250, 251, 252, 0, 0, 255,
    ]
}

/// The page index of the backward table: an offset into the lower
/// level per 32-code-point page.
pub open spec fn upper_seq() -> Seq<u16> {
    seq![
        0u16, 0, 64, 374, 221, 310, 0, 0, 124, 0, 0, 0,
        0, 0, 0, 0, 0, 0, 0, 0, 0, 0, 0, 0,
        0, 0, 0, 0, 0, 0, 0, 0, 0, 0, 0, 0,
        0, 0, 0, 0, 0, 0, 0, 0, 0, 0, 0, 0,
        0, 0, 0, 0, 0, 0, 0, 0, 0, 0, 0, 0,
        0, 0, 0, 0, 0, 0, 0, 0, 0, 0, 0, 0,
        0, 0, 0, 0, 0, 0, 0, 0, 0, 0, 0, 0,
        0, 0, 0, 0, 0, 0, 0, 0, 0, 0, 0, 0,
        0, 0, 0, 0, 0, 0, 0, 0, 0, 0, 0, 0,
        0, 0, 0, 0, 0, 0, 0, 0, 0, 0, 0, 0,
        0, 0, 0, 0, 0, 0, 0, 0, 159, 0, 247,
    ]
}

/// The largest code point this index maps.
pub open spec fn max_code() -> u32 {
    8364
}

/// One bit per 512-code-point range with any mapping in it.
pub open spec fn range_mask() -> u32 {
    65539
}

/// The page width the range mask is keyed on.
pub open spec fn mask_shift() -> u32 {
    9
}

/// The page width of the two-level backward table.
pub open spec fn page_shift() -> u32 {
    6
}

/// The in-page mask of the two-level backward table.
pub open spec fn page_mask() -> u32 {
    63
}

fn forward_vec() -> (r: Vec<u16>)
    ensures
        r@ == forward_seq(),
{
    let v: Vec<u16> = vec![
        128u16, 129, 130, 131, 132, 133, 134, 135, 136, 137, 138, 139,
        140, 141, 142, 143, 144, 145, 146, 147, 148, 149, 150, 151,
        152, 153, 154, 155, 156, 157, 158, 159, 160, 260, 261, 321,
        8364, 8222, 352, 167, 353, 169, 536, 171, 377, 173, 378, 379,
        176, 177, 268, 322, 381, 8221, 182, 183, 382, 269, 537, 187,
        338, 339, 376, 380, 192, 193, 194, 258, 196, 262, 198, 199,
        200, 201, 202, 203, 204, 205, 206, 207, 272, 323, 210, 211,
        212, 336, 214, 346, 368, 217, 218, 219, 220, 280, 538, 223,
        224, 225, 226, 259, 228, 263, 230, 231, 232, 233, 234, 235,
        236, 237, 238, 239, 273, 324, 242, 243, 244, 337, 246, 347,
        369, 249, 250, 251, 252, 281, 539, 255,
    ];
    proof {
        assert(v@ =~= forward_seq());
    }
    v
}

fn lower_vec() -> (r: Vec<u8>)
    ensures
        r@ == lower_seq(),
{
    let v: Vec<u8> = vec![
        0u8, 0, 0, 0, 0, 0, 0, 0, 0, 0, 0, 0,
        0, 0, 0, 0, 0, 0, 0, 0, 0, 0, 0, 0,
        0, 0, 0, 0, 0, 0, 0, 0, 0, 0, 0, 0,
        0, 0, 0, 0, 0, 0, 0, 0, 0, 0, 0, 0,
        0, 0, 0, 0, 0, 0, 0, 0, 0, 0, 0, 0,
        0, 0, 0, 0, 128, 129, 130, 131, 132, 133, 134, 135,
        136, 137, 138, 139, 140, 141, 142, 143, 144, 145, 146, 147,
        148, 149, 150, 151, 152, 153, 154, 155, 156, 157, 158, 159,
        160, 0, 0, 0, 0, 0, 0, 167, 0, 169, 0, 171,
        0, 173, 0, 0, 176, 177, 0, 0, 0, 0, 182, 183,
        0, 0, 0, 187, 0, 0, 0, 0, 0, 0, 0, 0,
        0, 0, 0, 0, 0, 0, 0, 0, 0, 0, 0, 0,
        0, 0, 0, 0, 170, 186, 222, 254, 0, 0, 0, 0,
        0, 0, 0, 0, 0, 0, 0, 0, 0, 0, 0, 0,
        0, 0, 0, 0, 0, 0, 0, 0, 0, 0, 0, 0,
        0, 0, 0, 0, 0, 0, 0, 0, 181, 165, 0, 0,
        0, 0, 0, 0, 0, 0, 0, 0, 0, 0, 0, 0,
        0, 0, 0, 0, 0, 0, 0, 0, 0, 0, 0, 0,
        0, 0, 0, 0, 0, 0, 0, 195, 227, 161, 162, 197,
        229, 0, 0, 0, 0, 178, 185, 0, 0, 208, 240, 0,
        0, 0, 0, 0, 0, 221, 253, 0, 0, 0, 0, 0,
        0, 0, 0, 0, 0, 0, 0, 0, 0, 0, 0, 0,
        0, 0, 0, 0, 0, 0, 0, 0, 0, 0, 0, 0,
        0, 0, 0, 0, 0, 0, 0, 0, 0, 0, 0, 0,
        0, 0, 0, 164, 0, 0, 0, 0, 0, 0, 0, 0,
        0, 0, 0, 0, 0, 0, 0, 0, 0, 0, 0, 163,
        179, 209, 241, 0, 0, 0, 0, 0, 0, 0, 0, 0,
        0, 0, 213, 245, 188, 189, 0, 0, 0, 0, 0, 0,
        215, 247, 0, 0, 0, 0, 166, 168, 0, 0, 0, 0,
        0, 0, 0, 0, 0, 0, 0, 0, 0, 0, 216, 248,
        0, 0, 0, 0, 0, 0, 190, 172, 174, 175, 191, 180,
        184, 0, 192, 193, 194, 0, 196, 0, 198, 199, 200, 201,
        202, 203, 204, 205, 206, 207, 0, 0, 210, 211, 212, 0,
        214, 0, 0, 217, 218, 219, 220, 0, 0, 223, 224, 225,
        226, 0, 228, 0, 230, 231, 232, 233, 234, 235, 236, 237,
        238, 239, 0, 0, 242, 243, 244, 0, 246, 0, 0, 249,
        250, 251, 252, 0, 0, 255,
    ];
    proof {
        assert(v@ =~= lower_seq());
    }
    v
}

fn upper_vec() -> (r: Vec<u16>)
    ensures
        r@ == upper_seq(),
{
    let v: Vec<u16> = vec![
        0u16, 0, 64, 374, 221, 310, 0, 0, 124, 0, 0, 0,
        0, 0, 0, 0, 0, 0, 0, 0, 0, 0, 0, 0,
        0, 0, 0, 0, 0, 0, 0, 0, 0, 0, 0, 0,
        0, 0, 0, 0, 0, 0, 0, 0, 0, 0, 0, 0,
        0, 0, 0, 0, 0, 0, 0, 0, 0, 0, 0, 0,
        0, 0, 0, 0, 0, 0, 0, 0, 0, 0, 0, 0,
        0, 0, 0, 0, 0, 0, 0, 0, 0, 0, 0, 0,
        0, 0, 0, 0, 0, 0, 0, 0, 0, 0, 0, 0,
        0, 0, 0, 0, 0, 0, 0, 0, 0, 0, 0, 0,
        0, 0, 0, 0, 0, 0, 0, 0, 0, 0, 0, 0,
        0, 0, 0, 0, 0, 0, 0, 0, 159, 0, 247,
    ];
    proof {
        assert(v@ =~= upper_seq());
    }
    v
}

/// The code point for the byte `code` of this index.
pub fn forward(code: u8) -> (r: u16)
    requires
        code >= 0x80,
    ensures
        r == forward_seq()[code - 0x80],
{
    let table = forward_vec();
    table[(code - 0x80) as usize]
}

/// The byte for code point `code`, through the two-level backward
/// table; 0 when the code point has no mapping.
pub fn backward(code: u32) -> (r: u8)
    ensures
        r == sb_opt(lower_seq(), upper_seq(), page_shift(), page_mask(), code),
{
    let upper = upper_vec();
    let lower = lower_vec();
    let offset = (code >> 6) as usize;
    let base: usize = if offset < upper.len() {
        upper[offset] as usize
    } else {
        0
    };
    proof {
        crate::encodings::lemma_and_mask_bound(code, 63);
    }
    let idx: usize = base + ((code & 63) as usize);
    if idx < lower.len() {
        lower[idx]
    } else {
        0
    }
}

/// The byte for code point `code`, by a linear scan of the forward
/// table; 0 when the code point has no mapping. The range guard culls
/// code points outside every mapped page first.
pub fn backward_linear(code: u32) -> (r: u8)
    ensures
        r == sb_lin(forward_seq(), max_code(), range_mask(), mask_shift(), code),
{
    if code > 8364 {
        return 0;
    }
    let page: u32 = code >> 9;
    if page >= 32 {
        return 0;
    }
    if ((65539u32 >> page) & 1) == 0 {
        return 0;
    }
    let table = forward_vec();
    let mut i: usize = 0;
    while i < 128
        invariant
            i <= 128,
            table@ == forward_seq(),
            forward_seq().len() == 128,
            sb_lin(forward_seq(), max_code(), range_mask(), mask_shift(), code) == sb_scan(
                forward_seq(),
                code,
                0,
            ),
            sb_scan(forward_seq(), code, 0) == sb_scan(forward_seq(), code, i as int),
        decreases 128 - i,
    {
        if table[i] as u32 == code {
            proof {
                assert(sb_scan(forward_seq(), code, i as int) == (0x80 + i as int) as u8);
            }
            return 0x80 + (i as u8);
        }
        i = i + 1;
    }
    0
}

} // verus!
