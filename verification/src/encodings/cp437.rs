//! Index tables for the cp437 single-byte encoding: the forward
//! table maps high bytes to code points (0xFFFF marks an unassigned
//! byte), the two-level backward tables map code points to bytes, and a
//! linear fallback scans the forward table instead.
use vstd::prelude::*;
use crate::encodings::{sb_opt, sb_lin, sb_scan};

verus! {

/// The code point for each byte from 0x80 up; 0xFFFF where the byte is
/// unassigned.
pub open spec fn forward_seq() -> Seq<u16> {
    seq![
        199u16, 252, 233, 226, 228, 224, 229, 231, 234, 235, 232, 239,
        238, 236, 196, 197, 201, 230, 198, 244, 246, 242, 251, 249,
        255, 214, 220, 162, 163, 165, 8359, 402, 225, 237, 243, 250,
        241, 209, 170, 186, 191, 8976, 172, 189, 188, 161, 171, 187,
        9617, 9618, 9619, 9474, 9508, 9569, 9570, 9558, 9557, 9571, 9553, 9559,
        9565, 9564, 9563, 9488, 9492, 9524, 9516, 9500, 9472, 9532, 9566, 9567,
        9562, 9556, 9577, 9574, 9568, 9552, 9580, 9575, 9576, 9572, 9573, 9561,
        9560, 9554, 9555, 9579, 9578, 9496, 9484, 9608, 9604, 9612, 9616, 9600,
        945, 223, 915, 960, 931, 963, 181, 964, 934, 920, 937, 948,
        8734, 966, 949, 8745, 8801, 177, 8805, 8804, 8992, 8993, 247, 8776,
        176, 8729, 183, 8730, 8319, 178, 9632, 160,
    ]
}

/// The flat lower level of the backward table; 0 marks a missing
/// mapping.
pub open spec fn lower_seq() -> Seq<u8> {
    seq![
        0u8, 0, 0, 0, 0, 0, 0, 0, 0, 0, 0, 0,
        0, 0, 0, 0, 0, 0, 0, 0, 0, 0, 0, 0,
        0, 0, 0, 0, 0, 0, 0, 0, 255, 173, 155, 156,
        0, 157, 0, 0, 0, 0, 166, 174, 170, 0, 0, 0,
        248, 241, 253, 0, 0, 230, 0, 250, 0, 0, 167, 175,
        172, 171, 0, 168, 0, 0, 0, 0, 142, 143, 146, 128,
        0, 144, 0, 0, 0, 0, 0, 0, 0, 165, 0, 0,
        0, 0, 153, 0, 0, 0, 0, 0, 154, 0, 0, 225,
        133, 160, 131, 0, 132, 134, 145, 135, 138, 130, 136, 137,
        141, 161, 140, 139, 0, 164, 149, 162, 147, 0, 148, 246,
        0, 151, 163, 150, 129, 0, 0, 152, 0, 0, 0, 0,
        0, 0, 0, 0, 0, 0, 0, 0, 0, 0, 0, 0,
        0, 0, 159, 0, 0, 0, 0, 0, 0, 0, 0, 0,
        0, 0, 0, 0, 0, 0, 0, 0, 0, 0, 0, 0,
        0, 0, 0, 0, 0, 0, 0, 0, 0, 0, 0, 226,
        0, 0, 0, 0, 233, 0, 0, 0, 0, 0, 0, 0,
        0, 0, 0, 228, 0, 0, 232, 0, 0, 234, 0, 0,
        0, 0, 0, 0, 0, 224, 0, 0, 235, 238, 0, 0,
        0, 0, 0, 0, 0, 0, 0, 0, 227, 0, 0, 229,
        231, 0, 237, 0, 0, 0, 0, 0, 0, 0, 0, 0,
        0, 0, 0, 0, 0, 0, 0, 0, 0, 0, 0, 0,
        0, 0, 0, 0, 0, 0, 0, 0, 0, 0, 0, 0,
        0, 0, 0, 0, 0, 0, 0, 0, 0, 0, 0, 0,
        0, 0, 0, 0, 0, 0, 0, 0, 0, 0, 0, 252,
        0, 0, 0, 0, 0, 0, 0, 158, 0, 0, 0, 0,
        0, 0, 0, 0, 0, 0, 0, 0, 0, 0, 0, 0,
        0, 0, 0, 0, 0, 0, 0, 0, 0, 0, 0, 0,
        0, 0, 0, 0, 0, 0, 0, 0, 0, 0, 0, 0,
        0, 0, 0, 0, 0, 0, 0, 0, 0, 249, 251, 0,
        0, 0, 236, 0, 0, 0, 0, 0, 0, 0, 0, 0,
        0, 239, 0, 0, 0, 0, 0, 0, 0, 0, 0, 0,
        0, 0, 0, 0, 0, 0, 0, 0, 0, 0, 0, 0,
        0, 0, 0, 0, 0, 0, 0, 0, 247, 0, 0, 0,
        0, 0, 0, 0, 0, 0, 0, 0, 0, 0, 0, 0,
        0, 0, 0, 0, 0, 0, 0, 0, 0, 240, 0, 0,
        243, 242, 0, 0, 0, 0, 0, 0, 0, 0, 0, 0,
        0, 0, 0, 0, 0, 0, 0, 0, 0, 0, 0, 0,
        0, 0, 0, 0, 0, 0, 0, 0, 0, 0, 0, 0,
        0, 0, 0, 0, 0, 0, 0, 0, 169, 0, 0, 0,
        0, 0, 0, 0, 0, 0, 0, 0, 0, 0, 0, 0,
        244, 245, 0, 0, 0, 0, 0, 0, 0, 0, 0, 0,
        0, 0, 0, 0, 0, 0, 0, 0, 0, 0, 0, 0,
        0, 0, 0, 0, 0, 0, 0, 0, 196, 0, 179, 0,
        0, 0, 0, 0, 0, 0, 0, 0, 218, 0, 0, 0,
        191, 0, 0, 0, 192, 0, 0, 0, 217, 0, 0, 0,
        195, 0, 0, 0, 0, 0, 0, 0, 180, 0, 0, 0,
        0, 0, 0, 0, 194, 0, 0, 0, 0, 0, 0, 0,
        193, 0, 0, 0, 0, 0, 0, 0, 197, 0, 0, 0,
        0, 0, 0, 0, 0, 0, 0, 0, 0, 0, 0, 0,
        0, 0, 0, 0, 205, 186, 213, 214, 201, 184, 183, 187,
        212, 211, 200, 190, 189, 188, 198, 199, 204, 181, 182, 185,
        209, 210, 203, 207, 208, 202, 216, 215, 206, 0, 0, 0,
        0, 0, 0, 0, 0, 0, 0, 0, 0, 0, 0, 0,
        0, 0, 0, 0, 223, 0, 0, 0, 220, 0, 0, 0,
        219, 0, 0, 0, 221, 0, 0, 0, 222, 176, 177, 178,
        0, 0, 0, 0, 0, 0, 0, 0, 0, 0, 0, 0,
        254, 0, 0, 0, 0, 0, 0, 0, 0, 0, 0, 0,
        0, 0, 0, 0, 0, 0, 0, 0, 0, 0, 0, 0,
        0, 0, 0, 0, 0, 0, 0, 0,
    ]
}

/// The page index of the backward table: an offset into the lower
/// level per 32-code-point page.
pub open spec fn upper_seq() -> Seq<u16> {
    seq![
        0u16, 0, 0, 0, 0, 32, 64, 96, 0, 0, 0, 0,
        128, 0, 0, 0, 0, 0, 0, 0, 0, 0, 0, 0,
        0, 0, 0, 0, 160, 192, 224, 0, 0, 0, 0, 0,
        0, 0, 0, 0, 0, 0, 0, 0, 0, 0, 0, 0,
        0, 0, 0, 0, 0, 0, 0, 0, 0, 0, 0, 0,
        0, 0, 0, 0, 0, 0, 0, 0, 0, 0, 0, 0,
        0, 0, 0, 0, 0, 0, 0, 0, 0, 0, 0, 0,
        0, 0, 0, 0, 0, 0, 0, 0, 0, 0, 0, 0,
        0, 0, 0, 0, 0, 0, 0, 0, 0, 0, 0, 0,
        0, 0, 0, 0, 0, 0, 0, 0, 0, 0, 0, 0,
        0, 0, 0, 0, 0, 0, 0, 0, 0, 0, 0, 0,
        0, 0, 0, 0, 0, 0, 0, 0, 0, 0, 0, 0,
        0, 0, 0, 0, 0, 0, 0, 0, 0, 0, 0, 0,
        0, 0, 0, 0, 0, 0, 0, 0, 0, 0, 0, 0,
        0, 0, 0, 0, 0, 0, 0, 0, 0, 0, 0, 0,
        0, 0, 0, 0, 0, 0, 0, 0, 0, 0, 0, 0,
        0, 0, 0, 0, 0, 0, 0, 0, 0, 0, 0, 0,
        0, 0, 0, 0, 0, 0, 0, 0, 0, 0, 0, 0,
        0, 0, 0, 0, 0, 0, 0, 0, 0, 0, 0, 0,
        0, 0, 0, 0, 0, 0, 0, 0, 0, 0, 0, 0,
        0, 0, 0, 0, 0, 0, 0, 0, 0, 0, 0, 0,
        0, 0, 0, 0, 0, 0, 0, 256, 0, 288, 0, 0,
        0, 0, 0, 0, 0, 0, 0, 0, 320, 352, 384, 416,
        0, 0, 0, 0, 448, 480, 0, 0, 0, 0, 0, 0,
        0, 0, 0, 0, 0, 0, 0, 0, 512, 544, 576, 608,
        640, 672,
    ]
}

/// The largest code point this index maps.
pub open spec fn max_code() -> u32 {
    9632
}

/// One bit per 512-code-point range with any mapping in it.
pub open spec fn range_mask() -> u32 {
    458755
}

/// The page width the range mask is keyed on.
pub open spec fn mask_shift() -> u32 {
    9
}

/// The page width of the two-level backward table.
pub open spec fn page_shift() -> u32 {
    5
}

/// The in-page mask of the two-level backward table.
pub open spec fn page_mask() -> u32 {
    31
}

fn forward_vec() -> (r: Vec<u16>)
    ensures
        r@ == forward_seq(),
{
    let v: Vec<u16> = vec![
        199u16, 252, 233, 226, 228, 224, 229, 231, 234, 235, 232, 239,
        238, 236, 196, 197, 201, 230, 198, 244, 246, 242, 251, 249,
        255, 214, 220, 162, 163, 165, 8359, 402, 225, 237, 243, 250,
        241, 209, 170, 186, 191, 8976, 172, 189, 188, 161, 171, 187,
        9617, 9618, 9619, 9474, 9508, 9569, 9570, 9558, 9557, 9571, 9553, 9559,
        9565, 9564, 9563, 9488, 9492, 9524, 9516, 9500, 9472, 9532, 9566, 9567,
        9562, 9556, 9577, 9574, 9568, 9552, 9580, 9575, 9576, 9572, 9573, 9561,
        9560, 9554, 9555, 9579, 9578, 9496, 9484, 9608, 9604, 9612, 9616, 9600,
        945, 223, 915, 960, 931, 963, 181, 964, 934, 920, 937, 948,
        8734, 966, 949, 8745, 8801, 177, 8805, 8804, 8992, 8993, 247, 8776,
        176, 8729, 183, 8730, 8319, 178, 9632, 160,
    ];
    proof {
        assert(v@ =~= forward_seq());
    }
    v
}

fn lower_vec() -> (r: Vec<u8>)
    ensures
        r@ == lower_seq(),
{
    let v: Vec<u8> = vec![
        0u8, 0, 0, 0, 0, 0, 0, 0, 0, 0, 0, 0,
        0, 0, 0, 0, 0, 0, 0, 0, 0, 0, 0, 0,
        0, 0, 0, 0, 0, 0, 0, 0, 255, 173, 155, 156,
        0, 157, 0, 0, 0, 0, 166, 174, 170, 0, 0, 0,
        248, 241, 253, 0, 0, 230, 0, 250, 0, 0, 167, 175,
        172, 171, 0, 168, 0, 0, 0, 0, 142, 143, 146, 128,
        0, 144, 0, 0, 0, 0, 0, 0, 0, 165, 0, 0,
        0, 0, 153, 0, 0, 0, 0, 0, 154, 0, 0, 225,
        133, 160, 131, 0, 132, 134, 145, 135, 138, 130, 136, 137,
        141, 161, 140, 139, 0, 164, 149, 162, 147, 0, 148, 246,
        0, 151, 163, 150, 129, 0, 0, 152, 0, 0, 0, 0,
        0, 0, 0, 0, 0, 0, 0, 0, 0, 0, 0, 0,
        0, 0, 159, 0, 0, 0, 0, 0, 0, 0, 0, 0,
        0, 0, 0, 0, 0, 0, 0, 0, 0, 0, 0, 0,
        0, 0, 0, 0, 0, 0, 0, 0, 0, 0, 0, 226,
        0, 0, 0, 0, 233, 0, 0, 0, 0, 0, 0, 0,
        0, 0, 0, 228, 0, 0, 232, 0, 0, 234, 0, 0,
        0, 0, 0, 0, 0, 224, 0, 0, 235, 238, 0, 0,
        0, 0, 0, 0, 0, 0, 0, 0, 227, 0, 0, 229,
        231, 0, 237, 0, 0, 0, 0, 0, 0, 0, 0, 0,
        0, 0, 0, 0, 0, 0, 0, 0, 0, 0, 0, 0,
        0, 0, 0, 0, 0, 0, 0, 0, 0, 0, 0, 0,
        0, 0, 0, 0, 0, 0, 0, 0, 0, 0, 0, 0,
        0, 0, 0, 0, 0, 0, 0, 0, 0, 0, 0, 252,
        0, 0, 0, 0, 0, 0, 0, 158, 0, 0, 0, 0,
        0, 0, 0, 0, 0, 0, 0, 0, 0, 0, 0, 0,
        0, 0, 0, 0, 0, 0, 0, 0, 0, 0, 0, 0,
        0, 0, 0, 0, 0, 0, 0, 0, 0, 0, 0, 0,
        0, 0, 0, 0, 0, 0, 0, 0, 0, 249, 251, 0,
        0, 0, 236, 0, 0, 0, 0, 0, 0, 0, 0, 0,
        0, 239, 0, 0, 0, 0, 0, 0, 0, 0, 0, 0,
        0, 0, 0, 0, 0, 0, 0, 0, 0, 0, 0, 0,
        0, 0, 0, 0, 0, 0, 0, 0, 247, 0, 0, 0,
        0, 0, 0, 0, 0, 0, 0, 0, 0, 0, 0, 0,
        0, 0, 0, 0, 0, 0, 0, 0, 0, 240, 0, 0,
        243, 242, 0, 0, 0, 0, 0, 0, 0, 0, 0, 0,
        0, 0, 0, 0, 0, 0, 0, 0, 0, 0, 0, 0,
        0, 0, 0, 0, 0, 0, 0, 0, 0, 0, 0, 0,
        0, 0, 0, 0, 0, 0, 0, 0, 169, 0, 0, 0,
        0, 0, 0, 0, 0, 0, 0, 0, 0, 0, 0, 0,
        244, 245, 0, 0, 0, 0, 0, 0, 0, 0, 0, 0,
        0, 0, 0, 0, 0, 0, 0, 0, 0, 0, 0, 0,
        0, 0, 0, 0, 0, 0, 0, 0, 196, 0, 179, 0,
        0, 0, 0, 0, 0, 0, 0, 0, 218, 0, 0, 0,
        191, 0, 0, 0, 192, 0, 0, 0, 217, 0, 0, 0,
        195, 0, 0, 0, 0, 0, 0, 0, 180, 0, 0, 0,
        0, 0, 0, 0, 194, 0, 0, 0, 0, 0, 0, 0,
        193, 0, 0, 0, 0, 0, 0, 0, 197, 0, 0, 0,
        0, 0, 0, 0, 0, 0, 0, 0, 0, 0, 0, 0,
        0, 0, 0, 0, 205, 186, 213, 214, 201, 184, 183, 187,
        212, 211, 200, 190, 189, 188, 198, 199, 204, 181, 182, 185,
        209, 210, 203, 207, 208, 202, 216, 215, 206, 0, 0, 0,
        0, 0, 0, 0, 0, 0, 0, 0, 0, 0, 0, 0,
        0, 0, 0, 0, 223, 0, 0, 0, 220, 0, 0, 0,
        219, 0, 0, 0, 221, 0, 0, 0, 222, 176, 177, 178,
        0, 0, 0, 0, 0, 0, 0, 0, 0, 0, 0, 0,
        254, 0, 0, 0, 0, 0, 0, 0, 0, 0, 0, 0,
        0, 0, 0, 0, 0, 0, 0, 0, 0, 0, 0, 0,
        0, 0, 0, 0, 0, 0, 0, 0,
    ];
    proof {
        assert(v@ =~= lower_seq());
    }
    v
}

fn upper_vec() -> (r: Vec<u16>)
    ensures
        r@ == upper_seq(),
{
    let v: Vec<u16> = vec![
        0u16, 0, 0, 0, 0, 32, 64, 96, 0, 0, 0, 0,
        128, 0, 0, 0, 0, 0, 0, 0, 0, 0, 0, 0,
        0, 0, 0, 0, 160, 192, 224, 0, 0, 0, 0, 0,
        0, 0, 0, 0, 0, 0, 0, 0, 0, 0, 0, 0,
        0, 0, 0, 0, 0, 0, 0, 0, 0, 0, 0, 0,
        0, 0, 0, 0, 0, 0, 0, 0, 0, 0, 0, 0,
        0, 0, 0, 0, 0, 0, 0, 0, 0, 0, 0, 0,
        0, 0, 0, 0, 0, 0, 0, 0, 0, 0, 0, 0,
        0, 0, 0, 0, 0, 0, 0, 0, 0, 0, 0, 0,
        0, 0, 0, 0, 0, 0, 0, 0, 0, 0, 0, 0,
        0, 0, 0, 0, 0, 0, 0, 0, 0, 0, 0, 0,
        0, 0, 0, 0, 0, 0, 0, 0, 0, 0, 0, 0,
        0, 0, 0, 0, 0, 0, 0, 0, 0, 0, 0, 0,
        0, 0, 0, 0, 0, 0, 0, 0, 0, 0, 0, 0,
        0, 0, 0, 0, 0, 0, 0, 0, 0, 0, 0, 0,
        0, 0, 0, 0, 0, 0, 0, 0, 0, 0, 0, 0,
        0, 0, 0, 0, 0, 0, 0, 0, 0, 0, 0, 0,
        0, 0, 0, 0, 0, 0, 0, 0, 0, 0, 0, 0,
        0, 0, 0, 0, 0, 0, 0, 0, 0, 0, 0, 0,
        0, 0, 0, 0, 0, 0, 0, 0, 0, 0, 0, 0,
        0, 0, 0, 0, 0, 0, 0, 0, 0, 0, 0, 0,
        0, 0, 0, 0, 0, 0, 0, 256, 0, 288, 0, 0,
        0, 0, 0, 0, 0, 0, 0, 0, 320, 352, 384, 416,
        0, 0, 0, 0, 448, 480, 0, 0, 0, 0, 0, 0,
        0, 0, 0, 0, 0, 0, 0, 0, 512, 544, 576, 608,
        640, 672,
    ];
    proof {
        assert(v@ =~= upper_seq());
    }
    v
}

/// The code point for the byte `code` of this index.
pub fn forward(code: u8) -> (r: u16)
    requires
        code >= 0x80,
    ensures
        r == forward_seq()[code - 0x80],
{
    let table = forward_vec();
    table[(code - 0x80) as usize]
}

/// The byte for code point `code`, through the two-level backward
/// table; 0 when the code point has no mapping.
pub fn backward(code: u32) -> (r: u8)
    ensures
        r == sb_opt(lower_seq(), upper_seq(), page_shift(), page_mask(), code),
{
    let upper = upper_vec();
    let lower = lower_vec();
    let offset = (code >> 5) as usize;
    let base: usize = if offset < upper.len() {
        upper[offset] as usize
    } else {
        0
    };
    proof {
        crate::encodings::lemma_and_mask_bound(code, 31);
    }
    let idx: usize = base + ((code & 31) as usize);
    if idx < lower.len() {
        lower[idx]
    } else {
        0
    }
}

/// The byte for code point `code`, by a linear scan of the forward
/// table; 0 when the code point has no mapping. The range guard culls
/// code points outside every mapped page first.
pub fn backward_linear(code: u32) -> (r: u8)
    ensures
        r == sb_lin(forward_seq(), max_code(), range_mask(), mask_shift(), code),
{
    if code > 9632 {
        return 0;
    }
    let page: u32 = code >> 9;
    if page >= 32 {
        return 0;
    }
    if ((458755u32 >> page) & 1) == 0 {
        return 0;
    }
    let table = forward_vec();
    let mut i: usize = 0;
    while i < 128
        invariant
            i <= 128,
            table@ == forward_seq(),
            forward_seq().len() == 128,
            sb_lin(forward_seq(), max_code(), range_mask(), mask_shift(), code) == sb_scan(
                forward_seq(),
                code,
                0,
            ),
            sb_scan(forward_seq(), code, 0) == sb_scan(forward_seq(), code, i as int),
        decreases 128 - i,
    {
        if table[i] as u32 == code {
            proof {
                assert(sb_scan(forward_seq(), code, i as int) == (0x80 + i as int) as u8);
            }
            return 0x80 + (i as u8);
        }
        i = i + 1;
    }
    0
}

} // verus!
