//! Index tables for the windows-1257 single-byte encoding: the forward
//! table maps high bytes to code points (0xFFFF marks an unassigned
//! byte), the two-level backward tables map code points to bytes, and a
//! linear fallback scans the forward table instead.
use vstd::prelude::*;
use crate::encodings::{sb_opt, sb_lin, sb_scan};

verus! {

/// The code point for each byte from 0x80 up; 0xFFFF where the byte is
/// unassigned.
pub open spec fn forward_seq() -> Seq<u16> {
    seq![
        8364u16, 129, 8218, 131, 8222, 8230, 8224, 8225, 136, 8240, 138, 8249,
        140, 168, 711, 184, 144, 8216, 8217, 8220, 8221, 8226, 8211, 8212,
        152, 8482, 154, 8250, 156, 175, 731, 159, 160, 65535, 162, 163,
        164, 65535, 166, 167, 216, 169, 342, 171, 172, 173, 174, 198,
        176, 177, 178, 179, 180, 181, 182, 183, 248, 185, 343, 187,
        188, 189, 190, 230, 260, 302, 256, 262, 196, 197, 280, 274,
        268, 201, 377, 278, 290, 310, 298, 315, 352, 323, 325, 211,
        332, 213, 214, 215, 370, 321, 346, 362, 220, 379, 381, 223,
        261, 303, 257, 263, 228, 229, 281, 275, 269, 233, 378, 279,
        291, 311, 299, 316, 353, 324, 326, 243, 333, 245, 246, 247,
        371, 322, 347, 363, 252, 380, 382, 729,
    ]
}

/// The flat lower level of the backward table; 0 marks a missing
/// mapping.
pub open spec fn lower_seq() -> Seq<u8> {
    seq![
        0u8, 0, 0, 0, 0, 0, 0, 0, 0, 0, 0, 0,
        0, 0, 0, 0, 0, 0, 0, 0, 0, 0, 0, 0,
        0, 0, 0, 0, 0, 0, 0, 0, 0, 0, 0, 0,
        0, 0, 0, 0, 0, 0, 0, 0, 0, 0, 0, 0,
        0, 0, 0, 0, 0, 0, 0, 0, 0, 0, 0, 0,
        0, 0, 0, 0, 194, 226, 0, 0, 192, 224, 195, 227,
        0, 0, 0, 0, 200, 232, 0, 0, 0, 0, 199, 231,
        0, 0, 203, 235, 198, 230, 0, 0, 0, 0, 0, 0,
        0, 0, 204, 236, 0, 0, 0, 0, 0, 0, 206, 238,
        0, 0, 193, 225, 0, 0, 0, 0, 0, 0, 205, 237,
        0, 0, 0, 207, 239, 0, 0, 0, 0, 0, 0, 0,
        142, 0, 0, 0, 0, 0, 0, 0, 0, 0, 0, 0,
        0, 0, 0, 0, 0, 0, 255, 0, 158, 0, 0, 0,
        0, 0, 0, 0, 0, 0, 0, 0, 0, 0, 0, 0,
        0, 0, 0, 0, 0, 0, 0, 0, 0, 0, 0, 0,
        0, 0, 0, 0, 0, 0, 0, 0, 0, 0, 0, 0,
        0, 0, 0, 0, 0, 128, 0, 0, 0, 0, 0, 0,
        0, 0, 0, 0, 0, 0, 0, 0, 0, 0, 0, 0,
        0, 0, 0, 0, 0, 0, 0, 0, 0, 0, 0, 0,
        0, 0, 0, 0, 153, 0, 0, 0, 0, 0, 0, 0,
        0, 0, 0, 0, 0, 0, 0, 0, 0, 0, 0, 0,
        0, 0, 0, 0, 0, 0, 0, 0, 0, 0, 150, 151,
        0, 0, 0, 145, 146, 130, 0, 147, 148, 132, 0, 134,
        135, 149, 0, 0, 0, 133, 0, 0, 0, 0, 0, 0,
        0, 0, 0, 137, 0, 0, 0, 0, 0, 0, 0, 0,
        139, 155, 0, 0, 0, 0, 0, 196, 197, 175, 0, 0,
        201, 0, 0, 0, 0, 0, 0, 0, 0, 0, 211, 0,
        213, 214, 215, 168, 0, 0, 0, 220, 0, 0, 223, 0,
        0, 0, 0, 228, 229, 191, 0, 0, 233, 0, 0, 0,
        0, 0, 0, 0, 0, 0, 243, 0, 245, 246, 247, 184,
        0, 0, 0, 252, 0, 0, 0, 129, 0, 131, 0, 0,
        0, 0, 136, 0, 138, 0, 140, 0, 0, 0, 144, 0,
        0, 0, 0, 0, 0, 0, 152, 0, 154, 0, 156, 0,
        0, 159, 160, 0, 162, 163, 164, 0, 166, 167, 141, 169,
        0, 171, 172, 173, 174, 157, 176, 177, 178, 179, 180, 181,
        182, 183, 143, 185, 0, 187, 188, 189, 190, 0, 217, 249,
        209, 241, 210, 242, 0, 0, 0, 0, 0, 212, 244, 0,
        0, 0, 0, 0, 0, 0, 0, 170, 186, 0, 0, 218,
        250, 0, 0, 0, 0, 208, 240, 0, 0, 0, 0, 0,
        0, 0, 0, 219, 251, 0, 0, 0, 0, 0, 0, 216,
        248, 0, 0, 0, 0, 0, 202, 234, 221, 253, 222, 254,
        0,
    ]
}

/// The page index of the backward table: an offset into the lower
/// level per 32-code-point page.
pub open spec fn upper_seq() -> Seq<u16> {
    seq![
        0u16, 0, 366, 303, 64, 429, 0, 0, 0, 0, 0, 125,
        0, 0, 0, 0, 0, 0, 0, 0, 0, 0, 0, 0,
        0, 0, 0, 0, 0, 0, 0, 0, 0, 0, 0, 0,
        0, 0, 0, 0, 0, 0, 0, 0, 0, 0, 0, 0,
        0, 0, 0, 0, 0, 0, 0, 0, 0, 0, 0, 0,
        0, 0, 0, 0, 0, 0, 0, 0, 0, 0, 0, 0,
        0, 0, 0, 0, 0, 0, 0, 0, 0, 0, 0, 0,
        0, 0, 0, 0, 0, 0, 0, 0, 0, 0, 0, 0,
        0, 0, 0, 0, 0, 0, 0, 0, 0, 0, 0, 0,
        0, 0, 0, 0, 0, 0, 0, 0, 0, 0, 0, 0,
        0, 0, 0, 0, 0, 0, 0, 0, 243, 0, 153, 0,
        198,
    ]
}

/// The largest code point this index maps.
pub open spec fn max_code() -> u32 {
    8482
}

/// One bit per 512-code-point range with any mapping in it.
pub open spec fn range_mask() -> u32 {
    65539
}

/// The page width the range mask is keyed on.
pub open spec fn mask_shift() -> u32 {
    9
}

/// The page width of the two-level backward table.
pub open spec fn page_shift() -> u32 {
    6
}

/// The in-page mask of the two-level backward table.
pub open spec fn page_mask() -> u32 {
    63
}

fn forward_vec() -> (r: Vec<u16>)
    ensures
        r@ == forward_seq(),
{
    let v: Vec<u16> = vec![
        8364u16, 129, 8218, 131, 8222, 8230, 8224, 8225, 136, 8240, 138, 8249,
        140, 168, 711, 184, 144, 8216, 8217, 8220, 8221, 8226, 8211, 8212,
        152, 8482, 154, 8250, 156, 175, 731, 159, 160, 65535, 162, 163,
        164, 65535, 166, 167, 216, 169, 342, 171, 172, 173, 174, 198,
        176, 177, 178, 179, 180, 181, 182, 183, 248, 185, 343, 187,
        188, 189, 190, 230, 260, 302, 256, 262, 196, 197, 280, 274,
        268, 201, 377, 278, 290, 310, 298, 315, 352, 323, 325, 211,
        332, 213, 214, 215, 370, 321, 346, 362, 220, 379, 381, 223,
        261, 303, 257, 263, 228, 229, 281, 275, 269, 233, 378, 279,
        291, 311, 299, 316, 353, 324, 326, 243, 333, 245, 246, 247,
        371, 322, 347, 363, 252, 380, 382, 729,
    ];
    proof {
        assert(v@ =~= forward_seq());
    }
    v
}

fn lower_vec() -> (r: Vec<u8>)
    ensures
        r@ == lower_seq(),
{
    let v: Vec<u8> = vec![
        0u8, 0, 0, 0, 0, 0, 0, 0, 0, 0, 0, 0,
        0, 0, 0, 0, 0, 0, 0, 0, 0, 0, 0, 0,
        0, 0, 0, 0, 0, 0, 0, 0, 0, 0, 0, 0,
        0, 0, 0, 0, 0, 0, 0, 0, 0, 0, 0, 0,
        0, 0, 0, 0, 0, 0, 0, 0, 0, 0, 0, 0,
        0, 0, 0, 0, 194, 226, 0, 0, 192, 224, 195, 227,
        0, 0, 0, 0, 200, 232, 0, 0, 0, 0, 199, 231,
        0, 0, 203, 235, 198, 230, 0, 0, 0, 0, 0, 0,
        0, 0, 204, 236, 0, 0, 0, 0, 0, 0, 206, 238,
        0, 0, 193, 225, 0, 0, 0, 0, 0, 0, 205, 237,
        0, 0, 0, 207, 239, 0, 0, 0, 0, 0, 0, 0,
        142, 0, 0, 0, 0, 0, 0, 0, 0, 0, 0, 0,
        0, 0, 0, 0, 0, 0, 255, 0, 158, 0, 0, 0,
        0, 0, 0, 0, 0, 0, 0, 0, 0, 0, 0, 0,
        0, 0, 0, 0, 0, 0, 0, 0, 0, 0, 0, 0,
        0, 0, 0, 0, 0, 0, 0, 0, 0, 0, 0, 0,
        0, 0, 0, 0, 0, 128, 0, 0, 0, 0, 0, 0,
        0, 0, 0, 0, 0, 0, 0, 0, 0, 0, 0, 0,
        0, 0, 0, 0, 0, 0, 0, 0, 0, 0, 0, 0,
        0, 0, 0, 0, 153, 0, 0, 0, 0, 0, 0, 0,
        0, 0, 0, 0, 0, 0, 0, 0, 0, 0, 0, 0,
        0, 0, 0, 0, 0, 0, 0, 0, 0, 0, 150, 151,
        0, 0, 0, 145, 146, 130, 0, 147, 148, 132, 0, 134,
        135, 149, 0, 0, 0, 133, 0, 0, 0, 0, 0, 0,
        0, 0, 0, 137, 0, 0, 0, 0, 0, 0, 0, 0,
        139, 155, 0, 0, 0, 0, 0, 196, 197, 175, 0, 0,
        201, 0, 0, 0, 0, 0, 0, 0, 0, 0, 211, 0,
        213, 214, 215, 168, 0, 0, 0, 220, 0, 0, 223, 0,
        0, 0, 0, 228, 229, 191, 0, 0, 233, 0, 0, 0,
        0, 0, 0, 0, 0, 0, 243, 0, 245, 246, 247, 184,
        0, 0, 0, 252, 0, 0, 0, 129, 0, 131, 0, 0,
        0, 0, 136, 0, 138, 0, 140, 0, 0, 0, 144, 0,
        0, 0, 0, 0, 0, 0, 152, 0, 154, 0, 156, 0,
        0, 159, 160, 0, 162, 163, 164, 0, 166, 167, 141, 169,
        0, 171, 172, 173, 174, 157, 176, 177, 178, 179, 180, 181,
        182, 183, 143, 185, 0, 187, 188, 189, 190, 0, 217, 249,
        209, 241, 210, 242, 0, 0, 0, 0, 0, 212, 244, 0,
        0, 0, 0, 0, 0, 0, 0, 170, 186, 0, 0, 218,
        250, 0, 0, 0, 0, 208, 240, 0, 0, 0, 0, 0,
        0, 0, 0, 219, 251, 0, 0, 0, 0, 0, 0, 216,
        248, 0, 0, 0, 0, 0, 202, 234, 221, 253, 222, 254,
        0,
    ];
    proof {
        assert(v@ =~= lower_seq());
    }
    v
}

fn upper_vec() -> (r: Vec<u16>)
    ensures
        r@ == upper_seq(),
{
    let v: Vec<u16> = vec![
        0u16, 0, 366, 303, 64, 429, 0, 0, 0, 0, 0, 125,
        0, 0, 0, 0, 0, 0, 0, 0, 0, 0, 0, 0,
        0, 0, 0, 0, 0, 0, 0, 0, 0, 0, 0, 0,
        0, 0, 0, 0, 0, 0, 0, 0, 0, 0, 0, 0,
        0, 0, 0, 0, 0, 0, 0, 0, 0, 0, 0, 0,
        0, 0, 0, 0, 0, 0, 0, 0, 0, 0, 0, 0,
        0, 0, 0, 0, 0, 0, 0, 0, 0, 0, 0, 0,
        0, 0, 0, 0, 0, 0, 0, 0, 0, 0, 0, 0,
        0, 0, 0, 0, 0, 0, 0, 0, 0, 0, 0, 0,
        0, 0, 0, 0, 0, 0, 0, 0, 0, 0, 0, 0,
        0, 0, 0, 0, 0, 0, 0, 0, 243, 0, 153, 0,
        198,
    ];
    proof {
        assert(v@ =~= upper_seq());
    }
    v
}

/// The code point for the byte `code` of this index.
pub fn forward(code: u8) -> (r: u16)
    requires
        code >= 0x80,
    ensures
        r == forward_seq()[code - 0x80],
{
    let table = forward_vec();
    table[(code - 0x80) as usize]
}

/// The byte for code point `code`, through the two-level backward
/// table; 0 when the code point has no mapping.
pub fn backward(code: u32) -> (r: u8)
    ensures
        r == sb_opt(lower_seq(), upper_seq(), page_shift(), page_mask(), code),
{
    let upper = upper_vec();
    let lower = lower_vec();
    let offset = (code >> 6) as usize;
    let base: usize = if offset < upper.len() {
        upper[offset] as usize
    } else {
        0
    };
    proof {
        crate::encodings::lemma_and_mask_bound(code, 63);
    }
    let idx: usize = base + ((code & 63) as usize);
    if idx < lower.len() {
        lower[idx]
    } else {
        0
    }
}

/// The byte for code point `code`, by a linear scan of the forward
/// table; 0 when the code point has no mapping. The range guard culls
/// code points outside every mapped page first.
pub fn backward_linear(code: u32) -> (r: u8)
    ensures
        r == sb_lin(forward_seq(), max_code(), range_mask(), mask_shift(), code),
{
    if code > 8482 {
        return 0;
    }
    let page: u32 = code >> 9;
    if page >= 32 {
        return 0;
    }
    if ((65539u32 >> page) & 1) == 0 {
        return 0;
    }
    let table = forward_vec();
    let mut i: usize = 0;
    while i < 128
        invariant
            i <= 128,
            table@ == forward_seq(),
            forward_seq().len() == 128,
            sb_lin(forward_seq(), max_code(), range_mask(), mask_shift(), code) == sb_scan(
                forward_seq(),
                code,
                0,
            ),
            sb_scan(forward_seq(), code, 0) == sb_scan(forward_seq(), code, i as int),
        decreases 128 - i,
    {
        if table[i] as u32 == code {
            proof {
                assert(sb_scan(forward_seq(), code, i as int) == (0x80 + i as int) as u8);
            }
            return 0x80 + (i as u8);
        }
        i = i + 1;
    }
    0
}

} // verus!
