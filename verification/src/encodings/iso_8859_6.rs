//! Index tables for the iso-8859-6 single-byte encoding: the forward
//! table maps high bytes to code points (0xFFFF marks an unassigned
//! byte), the two-level backward tables map code points to bytes, and a
//! linear fallback scans the forward table instead.
use vstd::prelude::*;
use crate::encodings::{sb_opt, sb_lin, sb_scan};

verus! {

/// The code point for each byte from 0x80 up; 0xFFFF where the byte is
/// unassigned.
pub open spec fn forward_seq() -> Seq<u16> {
    seq![
        128u16, 129, 130, 131, 132, 133, 134, 135, 136, 137, 138, 139,
        140, 141, 142, 143, 144, 145, 146, 147, 148, 149, 150, 151,
        152, 153, 154, 155, 156, 157, 158, 159, 160, 65535, 65535, 65535,
        164, 65535, 65535, 65535, 65535, 65535, 65535, 65535, 1548, 173, 65535, 65535,
        65535, 65535, 65535, 65535, 65535, 65535, 65535, 65535, 65535, 65535, 65535, 1563,
        65535, 65535, 65535, 1567, 65535, 1569, 1570, 1571, 1572, 1573, 1574, 1575,
        1576, 1577, 1578, 1579, 1580, 1581, 1582, 1583, 1584, 1585, 1586, 1587,
        1588, 1589, 1590, 1591, 1592, 1593, 1594, 65535, 65535, 65535, 65535, 65535,
        1600, 1601, 1602, 1603, 1604, 1605, 1606, 1607, 1608, 1609, 1610, 1611,
        1612, 1613, 1614, 1615, 1616, 1617, 1618, 65535, 65535, 65535, 65535, 65535,
        65535, 65535, 65535, 65535, 65535, 65535, 65535, 65535,
    ]
}

/// The flat lower level of the backward table; 0 marks a missing
/// mapping.
pub open spec fn lower_seq() -> Seq<u8> {
    seq![
        0u8, 0, 0, 0, 0, 0, 0, 0, 0, 0, 0, 0,
        0, 0, 0, 0, 0, 0, 0, 0, 0, 0, 0, 0,
        0, 0, 0, 0, 0, 0, 0, 0, 224, 225, 226, 227,
        228, 229, 230, 231, 232, 233, 234, 235, 236, 237, 238, 239,
        240, 241, 242, 0, 0, 0, 0, 0, 0, 0, 0, 0,
        0, 0, 0, 0, 193, 194, 195, 196, 197, 198, 199, 200,
        201, 202, 203, 204, 205, 206, 207, 208, 209, 210, 211, 212,
        213, 214, 215, 216, 217, 218, 0, 0, 0, 0, 0, 128,
        129, 130, 131, 132, 133, 134, 135, 136, 137, 138, 139, 140,
        141, 142, 143, 144, 145, 146, 147, 148, 149, 150, 151, 152,
        153, 154, 155, 156, 157, 158, 159, 160, 0, 0, 0, 164,
        0, 0, 0, 0, 0, 0, 0, 0, 173, 0, 0, 0,
        0, 0, 0, 0, 0, 0, 0, 0, 0, 0, 0, 0,
        0, 0, 0, 172, 0, 0, 0, 0, 0, 0, 0, 0,
        0, 0, 0, 0, 0, 0, 187, 0, 0, 0, 191,
    ]
}

/// The page index of the backward table: an offset into the lower
/// level per 32-code-point page.
pub open spec fn upper_seq() -> Seq<u16> {
    seq![
        0u16, 0, 0, 0, 95, 127, 0, 0, 0, 0, 0, 0,
        0, 0, 0, 0, 0, 0, 0, 0, 0, 0, 0, 0,
        0, 0, 0, 0, 0, 0, 0, 0, 0, 0, 0, 0,
        0, 0, 0, 0, 0, 0, 0, 0, 0, 0, 0, 0,
        147, 63, 32,
    ]
}

/// The largest code point this index maps.
pub open spec fn max_code() -> u32 {
    1618
}

/// One bit per 64-code-point range with any mapping in it.
pub open spec fn range_mask() -> u32 {
    50331652
}

/// The page width the range mask is keyed on.
pub open spec fn mask_shift() -> u32 {
    6
}

/// The page width of the two-level backward table.
pub open spec fn page_shift() -> u32 {
    5
}

/// The in-page mask of the two-level backward table.
pub open spec fn page_mask() -> u32 {
    31
}

fn forward_vec() -> (r: Vec<u16>)
    ensures
        r@ == forward_seq(),
{
    let v: Vec<u16> = vec![
        128u16, 129, 130, 131, 132, 133, 134, 135, 136, 137, 138, 139,
        140, 141, 142, 143, 144, 145, 146, 147, 148, 149, 150, 151,
        152, 153, 154, 155, 156, 157, 158, 159, 160, 65535, 65535, 65535,
        164, 65535, 65535, 65535, 65535, 65535, 65535, 65535, 1548, 173, 65535, 65535,
        65535, 65535, 65535, 65535, 65535, 65535, 65535, 65535, 65535, 65535, 65535, 1563,
        65535, 65535, 65535, 1567, 65535, 1569, 1570, 1571, 1572, 1573, 1574, 1575,
        1576, 1577, 1578, 1579, 1580, 1581, 1582, 1583, 1584, 1585, 1586, 1587,
        1588, 1589, 1590, 1591, 1592, 1593, 1594, 65535, 65535, 65535, 65535, 65535,
        1600, 1601, 1602, 1603, 1604, 1605, 1606, 1607, 1608, 1609, 1610, 1611,
        1612, 1613, 1614, 1615, 1616, 1617, 1618, 65535, 65535, 65535, 65535, 65535,
        65535, 65535, 65535, 65535, 65535, 65535, 65535, 65535,
    ];
    proof {
        assert(v@ =~= forward_seq());
    }
    v
}

fn lower_vec() -> (r: Vec<u8>)
    ensures
        r@ == lower_seq(),
{
    let v: Vec<u8> = vec![
        0u8, 0, 0, 0, 0, 0, 0, 0, 0, 0, 0, 0,
        0, 0, 0, 0, 0, 0, 0, 0, 0, 0, 0, 0,
        0, 0, 0, 0, 0, 0, 0, 0, 224, 225, 226, 227,
        228, 229, 230, 231, 232, 233, 234, 235, 236, 237, 238, 239,
        240, 241, 242, 0, 0, 0, 0, 0, 0, 0, 0, 0,
        0, 0, 0, 0, 193, 194, 195, 196, 197, 198, 199, 200,
        201, 202, 203, 204, 205, 206, 207, 208, 209, 210, 211, 212,
        213, 214, 215, 216, 217, 218, 0, 0, 0, 0, 0, 128,
        129, 130, 131, 132, 133, 134, 135, 136, 137, 138, 139, 140,
        141, 142, 143, 144, 145, 146, 147, 148, 149, 150, 151, 152,
        153, 154, 155, 156, 157, 158, 159, 160, 0, 0, 0, 164,
        0, 0, 0, 0, 0, 0, 0, 0, 173, 0, 0, 0,
        0, 0, 0, 0, 0, 0, 0, 0, 0, 0, 0, 0,
        0, 0, 0, 172, 0, 0, 0, 0, 0, 0, 0, 0,
        0, 0, 0, 0, 0, 0, 187, 0, 0, 0, 191,
    ];
    proof {
        assert(v@ =~= lower_seq());
    }
    v
}

fn upper_vec() -> (r: Vec<u16>)
    ensures
        r@ == upper_seq(),
{
    let v: Vec<u16> = vec![
        0u16, 0, 0, 0, 95, 127, 0, 0, 0, 0, 0, 0,
        0, 0, 0, 0, 0, 0, 0, 0, 0, 0, 0, 0,
        0, 0, 0, 0, 0, 0, 0, 0, 0, 0, 0, 0,
        0, 0, 0, 0, 0, 0, 0, 0, 0, 0, 0, 0,
        147, 63, 32,
    ];
    proof {
        assert(v@ =~= upper_seq());
    }
    v
}

/// The code point for the byte `code` of this index.
pub fn forward(code: u8) -> (r: u16)
    requires
        code >= 0x80,
    ensures
        r == forward_seq()[code - 0x80],
{
    let table = forward_vec();
    table[(code - 0x80) as usize]
}

/// The byte for code point `code`, through the two-level backward
/// table; 0 when the code point has no mapping.
pub fn backward(code: u32) -> (r: u8)
    ensures
        r == sb_opt(lower_seq(), upper_seq(), page_shift(), page_mask(), code),
{
    let upper = upper_vec();
    let lower = lower_vec();
    let offset = (code >> 5) as usize;
    let base: usize = if offset < upper.len() {
        upper[offset] as usize
    } else {
        0
    };
    proof {
        crate::encodings::lemma_and_mask_bound(code, 31);
    }
    let idx: usize = base + ((code & 31) as usize);
    if idx < lower.len() {
        lower[idx]
    } else {
        0
    }
}

/// The byte for code point `code`, by a linear scan of the forward
/// table; 0 when the code point has no mapping. The range guard culls
/// code points outside every mapped page first.
pub fn backward_linear(code: u32) -> (r: u8)
    ensures
        r == sb_lin(forward_seq(), max_code(), range_mask(), mask_shift(), code),
{
    if code > 1618 {
        return 0;
    }
    let page: u32 = code >> 6;
    if page >= 32 {
        return 0;
    }
    if ((50331652u32 >> page) & 1) == 0 {
        return 0;
    }
    let table = forward_vec();
    let mut i: usize = 0;
    while i < 128
        invariant
            i <= 128,
            table@ == forward_seq(),
            forward_seq().len() == 128,
            sb_lin(forward_seq(), max_code(), range_mask(), mask_shift(), code) == sb_scan(
                forward_seq(),
                code,
                0,
            ),
            sb_scan(forward_seq(), code, 0) == sb_scan(forward_seq(), code, i as int),
        decreases 128 - i,
    {
        if table[i] as u32 == code {
            proof {
                assert(sb_scan(forward_seq(), code, i as int) == (0x80 + i as int) as u8);
            }
            return 0x80 + (i as u8);
        }
        i = i + 1;
    }
    0
}

} // verus!
