//! Index tables for the windows-1255 single-byte encoding: the forward
//! table maps high bytes to code points (0xFFFF marks an unassigned
//! byte), the two-level backward tables map code points to bytes, and a
//! linear fallback scans the forward table instead.
use vstd::prelude::*;
use crate::encodings::{sb_opt, sb_lin, sb_scan};

verus! {

/// The code point for each byte from 0x80 up; 0xFFFF where the byte is
/// unassigned.
pub open spec fn forward_seq() -> Seq<u16> {
    seq![
        8364u16, 129, 8218, 402, 8222, 8230, 8224, 8225, 710, 8240, 138, 8249,
        140, 141, 142, 143, 144, 8216, 8217, 8220, 8221, 8226, 8211, 8212,
        732, 8482, 154, 8250, 156, 157, 158, 159, 160, 161, 162, 163,
        8362, 165, 166, 167, 168, 169, 215, 171, 172, 173, 174, 175,
        176, 177, 178, 179, 180, 181, 182, 183, 184, 185, 247, 187,
        188, 189, 190, 191, 1456, 1457, 1458, 1459, 1460, 1461, 1462, 1463,
        1464, 1465, 65535, 1467, 1468, 1469, 1470, 1471, 1472, 1473, 1474, 1475,
        1520, 1521, 1522, 1523, 1524, 65535, 65535, 65535, 65535, 65535, 65535, 65535,
        1488, 1489, 1490, 1491, 1492, 1493, 1494, 1495, 1496, 1497, 1498, 1499,
        1500, 1501, 1502, 1503, 1504, 1505, 1506, 1507, 1508, 1509, 1510, 1511,
        1512, 1513, 1514, 65535, 65535, 8206, 8207, 65535,
    ]
}

/// The flat lower level of the backward table; 0 marks a missing
/// mapping.
pub open spec fn lower_seq() -> Seq<u8> {
    seq![
        0u8, 0, 0, 0, 0, 0, 0, 0, 0, 0, 0, 0,
        0, 0, 0, 0, 0, 0, 0, 0, 0, 0, 0, 0,
        0, 0, 0, 0, 0, 0, 0, 0, 0, 0, 0, 0,
        0, 0, 0, 0, 0, 0, 0, 0, 0, 0, 0, 0,
        0, 0, 0, 0, 0, 0, 0, 0, 0, 0, 0, 0,
        0, 0, 0, 0, 136, 0, 0, 0, 0, 0, 0, 0,
        0, 0, 0, 0, 0, 0, 0, 0, 0, 0, 0, 0,
        0, 0, 152, 0, 0, 0, 0, 0, 0, 0, 0, 0,
        0, 0, 0, 0, 0, 0, 0, 0, 0, 0, 0, 0,
        0, 0, 0, 0, 0, 0, 0, 0, 0, 0, 0, 0,
        0, 0, 0, 0, 0, 0, 0, 0, 0, 164, 0, 128,
        0, 0, 0, 0, 0, 0, 0, 0, 0, 0, 0, 0,
        0, 0, 0, 0, 0, 0, 0, 0, 0, 0, 0, 0,
        0, 0, 0, 0, 0, 0, 0, 0, 0, 0, 153, 0,
        0, 0, 0, 0, 0, 0, 0, 0, 0, 0, 0, 0,
        0, 0, 0, 0, 0, 0, 0, 0, 0, 0, 0, 0,
        0, 0, 0, 0, 170, 0, 0, 0, 0, 0, 0, 0,
        0, 0, 0, 0, 0, 0, 0, 0, 0, 0, 0, 0,
        0, 0, 0, 0, 0, 0, 0, 0, 0, 0, 0, 0,
        186, 0, 0, 0, 0, 0, 0, 0, 0, 0, 0, 0,
        0, 0, 0, 253, 254, 0, 0, 0, 150, 151, 0, 0,
        0, 145, 146, 130, 0, 147, 148, 132, 0, 134, 135, 149,
        0, 0, 0, 133, 0, 0, 0, 0, 0, 0, 0, 0,
        0, 137, 0, 0, 0, 0, 0, 0, 0, 0, 139, 155,
        0, 0, 0, 0, 0, 129, 0, 0, 0, 0, 0, 0,
        0, 0, 138, 0, 140, 141, 142, 143, 144, 0, 0, 0,
        0, 0, 0, 0, 0, 0, 154, 0, 156, 157, 158, 159,
        160, 161, 162, 163, 0, 165, 166, 167, 168, 169, 0, 171,
        172, 173, 174, 175, 176, 177, 178, 179, 180, 181, 182, 183,
        184, 185, 0, 187, 188, 189, 190, 191, 208, 209, 210, 211,
        0, 0, 0, 0, 0, 0, 0, 0, 0, 0, 0, 0,
        224, 225, 226, 227, 228, 229, 230, 231, 232, 233, 234, 235,
        236, 237, 238, 239, 240, 241, 242, 243, 244, 245, 246, 247,
        248, 249, 250, 0, 0, 0, 0, 0, 212, 213, 214, 215,
        216, 0, 0, 0, 0, 0, 0, 0, 0, 0, 0, 0,
        0, 0, 0, 0, 0, 0, 0, 131, 0, 0, 0, 0,
        0, 0, 0, 0, 0, 0, 0, 0, 0, 0, 0, 0,
        0, 0, 0, 0, 0, 0, 0, 0, 0, 0, 0, 0,
        0, 0, 0, 0, 0, 0, 0, 0, 0, 0, 0, 0,
        0, 0, 0, 0, 0, 0, 0, 0, 192, 193, 194, 195,
        196, 197, 198, 199, 200, 201, 0, 203, 204, 205, 206, 207,
    ]
}

/// The page index of the backward table: an offset into the lower
/// level per 32-code-point page.
pub open spec fn upper_seq() -> Seq<u16> {
    seq![
        0u16, 0, 292, 173, 0, 0, 409, 0, 0, 0, 0, 58,
        0, 0, 0, 0, 0, 0, 0, 0, 0, 0, 428, 356,
        0, 0, 0, 0, 0, 0, 0, 0, 0, 0, 0, 0,
        0, 0, 0, 0, 0, 0, 0, 0, 0, 0, 0, 0,
        0, 0, 0, 0, 0, 0, 0, 0, 0, 0, 0, 0,
        0, 0, 0, 0, 0, 0, 0, 0, 0, 0, 0, 0,
        0, 0, 0, 0, 0, 0, 0, 0, 0, 0, 0, 0,
        0, 0, 0, 0, 0, 0, 0, 0, 0, 0, 0, 0,
        0, 0, 0, 0, 0, 0, 0, 0, 0, 0, 0, 0,
        0, 0, 0, 0, 0, 0, 0, 0, 0, 0, 0, 0,
        0, 0, 0, 0, 0, 0, 0, 0, 229, 0, 87, 0,
        132,
    ]
}

/// The largest code point this index maps.
pub open spec fn max_code() -> u32 {
    8482
}

/// One bit per 512-code-point range with any mapping in it.
pub open spec fn range_mask() -> u32 {
    65543
}

/// The page width the range mask is keyed on.
pub open spec fn mask_shift() -> u32 {
    9
}

/// The page width of the two-level backward table.
pub open spec fn page_shift() -> u32 {
    6
}

/// The in-page mask of the two-level backward table.
pub open spec fn page_mask() -> u32 {
    63
}

fn forward_vec() -> (r: Vec<u16>)
    ensures
        r@ == forward_seq(),
{
    let v: Vec<u16> = vec![
        8364u16, 129, 8218, 402, 8222, 8230, 8224, 8225, 710, 8240, 138, 8249,
        140, 141, 142, 143, 144, 8216, 8217, 8220, 8221, 8226, 8211, 8212,
        732, 8482, 154, 8250, 156, 157, 158, 159, 160, 161, 162, 163,
        8362, 165, 166, 167, 168, 169, 215, 171, 172, 173, 174, 175,
        176, 177, 178, 179, 180, 181, 182, 183, 184, 185, 247, 187,
        188, 189, 190, 191, 1456, 1457, 1458, 1459, 1460, 1461, 1462, 1463,
        1464, 1465, 65535, 1467, 1468, 1469, 1470, 1471, 1472, 1473, 1474, 1475,
        1520, 1521, 1522, 1523, 1524, 65535, 65535, 65535, 65535, 65535, 65535, 65535,
        1488, 1489, 1490, 1491, 1492, 1493, 1494, 1495, 1496, 1497, 1498, 1499,
        1500, 1501, 1502, 1503, 1504, 1505, 1506, 1507, 1508, 1509, 1510, 1511,
        1512, 1513, 1514, 65535, 65535, 8206, 8207, 65535,
    ];
    proof {
        assert(v@ =~= forward_seq());
    }
    v
}

fn lower_vec() -> (r: Vec<u8>)
    ensures
        r@ == lower_seq(),
{
    let v: Vec<u8> = vec![
        0u8, 0, 0, 0, 0, 0, 0, 0, 0, 0, 0, 0,
        0, 0, 0, 0, 0, 0, 0, 0, 0, 0, 0, 0,
        0, 0, 0, 0, 0, 0, 0, 0, 0, 0, 0, 0,
        0, 0, 0, 0, 0, 0, 0, 0, 0, 0, 0, 0,
        0, 0, 0, 0, 0, 0, 0, 0, 0, 0, 0, 0,
        0, 0, 0, 0, 136, 0, 0, 0, 0, 0, 0, 0,
        0, 0, 0, 0, 0, 0, 0, 0, 0, 0, 0, 0,
        0, 0, 152, 0, 0, 0, 0, 0, 0, 0, 0, 0,
        0, 0, 0, 0, 0, 0, 0, 0, 0, 0, 0, 0,
        0, 0, 0, 0, 0, 0, 0, 0, 0, 0, 0, 0,
        0, 0, 0, 0, 0, 0, 0, 0, 0, 164, 0, 128,
        0, 0, 0, 0, 0, 0, 0, 0, 0, 0, 0, 0,
        0, 0, 0, 0, 0, 0, 0, 0, 0, 0, 0, 0,
        0, 0, 0, 0, 0, 0, 0, 0, 0, 0, 153, 0,
        0, 0, 0, 0, 0, 0, 0, 0, 0, 0, 0, 0,
        0, 0, 0, 0, 0, 0, 0, 0, 0, 0, 0, 0,
        0, 0, 0, 0, 170, 0, 0, 0, 0, 0, 0, 0,
        0, 0, 0, 0, 0, 0, 0, 0, 0, 0, 0, 0,
        0, 0, 0, 0, 0, 0, 0, 0, 0, 0, 0, 0,
        186, 0, 0, 0, 0, 0, 0, 0, 0, 0, 0, 0,
        0, 0, 0, 253, 254, 0, 0, 0, 150, 151, 0, 0,
        0, 145, 146, 130, 0, 147, 148, 132, 0, 134, 135, 149,
        0, 0, 0, 133, 0, 0, 0, 0, 0, 0, 0, 0,
        0, 137, 0, 0, 0, 0, 0, 0, 0, 0, 139, 155,
        0, 0, 0, 0, 0, 129, 0, 0, 0, 0, 0, 0,
        0, 0, 138, 0, 140, 141, 142, 143, 144, 0, 0, 0,
        0, 0, 0, 0, 0, 0, 154, 0, 156, 157, 158, 159,
        160, 161, 162, 163, 0, 165, 166, 167, 168, 169, 0, 171,
        172, 173, 174, 175, 176, 177, 178, 179, 180, 181, 182, 183,
        184, 185, 0, 187, 188, 189, 190, 191, 208, 209, 210, 211,
        0, 0, 0, 0, 0, 0, 0, 0, 0, 0, 0, 0,
        224, 225, 226, 227, 228, 229, 230, 231, 232, 233, 234, 235,
        236, 237, 238, 239, 240, 241, 242, 243, 244, 245, 246, 247,
        248, 249, 250, 0, 0, 0, 0, 0, 212, 213, 214, 215,
        216, 0, 0, 0, 0, 0, 0, 0, 0, 0, 0, 0,
        0, 0, 0, 0, 0, 0, 0, 131, 0, 0, 0, 0,
        0, 0, 0, 0, 0, 0, 0, 0, 0, 0, 0, 0,
        0, 0, 0, 0, 0, 0, 0, 0, 0, 0, 0, 0,
        0, 0, 0, 0, 0, 0, 0, 0, 0, 0, 0, 0,
        0, 0, 0, 0, 0, 0, 0, 0, 192, 193, 194, 195,
        196, 197, 198, 199, 200, 201, 0, 203, 204, 205, 206, 207,
    ];
    proof {
        assert(v@ =~= lower_seq());
    }
    v
}

fn upper_vec() -> (r: Vec<u16>)
    ensures
        r@ == upper_seq(),
{
    let v: Vec<u16> = vec![
        0u16, 0, 292, 173, 0, 0, 409, 0, 0, 0, 0, 58,
        0, 0, 0, 0, 0, 0, 0, 0, 0, 0, 428, 356,
        0, 0, 0, 0, 0, 0, 0, 0, 0, 0, 0, 0,
        0, 0, 0, 0, 0, 0, 0, 0, 0, 0, 0, 0,
        0, 0, 0, 0, 0, 0, 0, 0, 0, 0, 0, 0,
        0, 0, 0, 0, 0, 0, 0, 0, 0, 0, 0, 0,
        0, 0, 0, 0, 0, 0, 0, 0, 0, 0, 0, 0,
        0, 0, 0, 0, 0, 0, 0, 0, 0, 0, 0, 0,
        0, 0, 0, 0, 0, 0, 0, 0, 0, 0, 0, 0,
        0, 0, 0, 0, 0, 0, 0, 0, 0, 0, 0, 0,
        0, 0, 0, 0, 0, 0, 0, 0, 229, 0, 87, 0,
        132,
    ];
    proof {
        assert(v@ =~= upper_seq());
    }
    v
}

/// The code point for the byte `code` of this index.
pub fn forward(code: u8) -> (r: u16)
    requires
        code >= 0x80,
    ensures
        r == forward_seq()[code - 0x80],
{
    let table = forward_vec();
    table[(code - 0x80) as usize]
}

/// The byte for code point `code`, through the two-level backward
/// table; 0 when the code point has no mapping.
pub fn backward(code: u32) -> (r: u8)
    ensures
        r == sb_opt(lower_seq(), upper_seq(), page_shift(), page_mask(), code),
{
    let upper = upper_vec();
    let lower = lower_vec();
    let offset = (code >> 6) as usize;
    let base: usize = if offset < upper.len() {
        upper[offset] as usize
    } else {
        0
    };
    proof {
        crate::encodings::lemma_and_mask_bound(code, 63);
    }
    let idx: usize = base + ((code & 63) as usize);
    if idx < lower.len() {
        lower[idx]
    } else {
        0
    }
}

/// The byte for code point `code`, by a linear scan of the forward
/// table; 0 when the code point has no mapping. The range guard culls
/// code points outside every mapped page first.
pub fn backward_linear(code: u32) -> (r: u8)
    ensures
        r == sb_lin(forward_seq(), max_code(), range_mask(), mask_shift(), code),
{
    if code > 8482 {
        return 0;
    }
    let page: u32 = code >> 9;
    if page >= 32 {
        return 0;
    }
    if ((65543u32 >> page) & 1) == 0 {
        return 0;
    }
    let table = forward_vec();
    let mut i: usize = 0;
    while i < 128
        invariant
            i <= 128,
            table@ == forward_seq(),
            forward_seq().len() == 128,
            sb_lin(forward_seq(), max_code(), range_mask(), mask_shift(), code) == sb_scan(
                forward_seq(),
                code,
                0,
            ),
            sb_scan(forward_seq(), code, 0) == sb_scan(forward_seq(), code, i as int),
        decreases 128 - i,
    {
        if table[i] as u32 == code {
            proof {
                assert(sb_scan(forward_seq(), code, i as int) == (0x80 + i as int) as u8);
            }
            return 0x80 + (i as u8);
        }
        i = i + 1;
    }
    0
}

} // verus!
