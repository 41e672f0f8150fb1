//! The bit packer: bytes to ten-bit groups and back.
//!
//! Eight and ten meet at forty, so the bit stream is read in windows of forty
//! bits: five bytes, or four groups. A window is modelled as the number that its
//! bits spell, most significant bit first; a byte or a group is a digit of it.

use vstd::prelude::*;

verus! {

/// Number of values that a group can take: two to the tenth.
pub const GROUP_LIMIT: u16 = 1024;

/// The byte at position `i` of the stream, and zero after its end.
pub open spec fn byte_or_zero(bytes: Seq<u8>, i: int) -> int {
    if 0 <= i < bytes.len() {
        bytes[i] as int
    } else {
        0
    }
}

/// The group at position `j` of the stream, and zero after its end.
pub open spec fn group_or_zero(groups: Seq<u16>, j: int) -> int {
    if 0 <= j < groups.len() {
        groups[j] as int
    } else {
        0
    }
}

/// Five bytes read as one number of forty bits, the first byte on top.
pub open spec fn window_of_bytes(b0: int, b1: int, b2: int, b3: int, b4: int) -> int {
    b0 * 0x1_0000_0000 + b1 * 0x100_0000 + b2 * 0x1_0000 + b3 * 0x100 + b4
}

/// Four groups read as one number of forty bits, the first group on top.
pub open spec fn window_of_groups(g0: int, g1: int, g2: int, g3: int) -> int {
    g0 * 0x4000_0000 + g1 * 0x10_0000 + g2 * 0x400 + g3
}

/// Window `w` of a byte stream: bytes `5w` to `5w + 4`, zeros standing in after the end.
pub open spec fn byte_window(bytes: Seq<u8>, w: int) -> int {
    window_of_bytes(
        byte_or_zero(bytes, 5 * w),
        byte_or_zero(bytes, 5 * w + 1),
        byte_or_zero(bytes, 5 * w + 2),
        byte_or_zero(bytes, 5 * w + 3),
        byte_or_zero(bytes, 5 * w + 4),
    )
}

/// Window `w` of a group stream: groups `4w` to `4w + 3`, zeros standing in after the end.
pub open spec fn group_window(groups: Seq<u16>, w: int) -> int {
    window_of_groups(
        group_or_zero(groups, 4 * w),
        group_or_zero(groups, 4 * w + 1),
        group_or_zero(groups, 4 * w + 2),
        group_or_zero(groups, 4 * w + 3),
    )
}

/// Bits `10t` to `10t + 9` of a window, counted from the top, for `t` from 0 to 3.
pub open spec fn group_digit(window: int, t: int) -> int {
    if t == 0 {
        (window / 0x4000_0000) % 1024
    } else if t == 1 {
        (window / 0x10_0000) % 1024
    } else if t == 2 {
        (window / 0x400) % 1024
    } else {
        window % 1024
    }
}

/// Bits `8t` to `8t + 7` of a window, counted from the top, for `t` from 0 to 4.
pub open spec fn byte_digit(window: int, t: int) -> int {
    if t == 0 {
        (window / 0x1_0000_0000) % 256
    } else if t == 1 {
        (window / 0x100_0000) % 256
    } else if t == 2 {
        (window / 0x1_0000) % 256
    } else if t == 3 {
        (window / 0x100) % 256
    } else {
        window % 256
    }
}

/// Number of groups that hold `n` bytes: eight bits a byte, ten a group, rounded up.
pub open spec fn packed_len(n: int) -> int {
    (8 * n + 9) / 10
}

/// Number of whole bytes in `m` groups.
pub open spec fn unpacked_len(m: int) -> int {
    (10 * m) / 8
}

/// Every group is a ten-bit value.
pub open spec fn groups_in_range(groups: Seq<u16>) -> bool {
    forall|j: int| 0 <= j < groups.len() ==> groups[j] < GROUP_LIMIT
}

/// The groups of a byte stream: its bits, most significant first, cut anew
/// every ten bits, with zero bits filling the last group.
pub open spec fn pack_spec(bytes: Seq<u8>) -> Seq<u16> {
    Seq::new(
        packed_len(bytes.len() as int) as nat,
        |j: int| group_digit(byte_window(bytes, j / 4), j % 4) as u16,
    )
}

/// The bytes of a group stream: its bits, most significant first, cut anew
/// every eight bits; bits that do not fill a byte are left out.
pub open spec fn unpack_spec(groups: Seq<u16>) -> Seq<u8> {
    Seq::new(
        unpacked_len(groups.len() as int) as nat,
        |i: int| byte_digit(group_window(groups, i / 5), i % 5) as u8,
    )
}

/// The four groups of a window of five bytes.
pub(crate) fn pack_window(b0: u8, b1: u8, b2: u8, b3: u8, b4: u8) -> (g: [u16; 4])
    ensures
        forall|t: int|
            0 <= t < 4 ==> g[t] as int == #[trigger] group_digit(
                window_of_bytes(b0 as int, b1 as int, b2 as int, b3 as int, b4 as int),
                t,
            ),
        forall|t: int| 0 <= t < 4 ==> #[trigger] g[t] < GROUP_LIMIT,
{
    let g0: u16 = ((b0 as u16) << 2) | ((b1 as u16) >> 6);
    let g1: u16 = (((b1 as u16) & 0x3f) << 4) | ((b2 as u16) >> 4);
    let g2: u16 = (((b2 as u16) & 0x0f) << 6) | ((b3 as u16) >> 2);
    let g3: u16 = (((b3 as u16) & 0x03) << 8) | (b4 as u16);
    proof {
        assert({
            let w = b0 * 0x1_0000_0000 + b1 * 0x100_0000 + b2 * 0x1_0000 + b3 * 0x100 + b4;
            &&& (((b0 as u16) << 2) | ((b1 as u16) >> 6)) == (w / 0x4000_0000) % 1024
            &&& ((((b1 as u16) & 0x3f) << 4) | ((b2 as u16) >> 4)) == (w / 0x10_0000) % 1024
            &&& ((((b2 as u16) & 0x0f) << 6) | ((b3 as u16) >> 2)) == (w / 0x400) % 1024
            &&& ((((b3 as u16) & 0x03) << 8) | (b4 as u16)) == w % 1024
        }) by (bit_vector);
    }
    [g0, g1, g2, g3]
}

/// The five bytes of a window of four groups.
pub(crate) fn unpack_window(g0: u16, g1: u16, g2: u16, g3: u16) -> (b: [u8; 5])
    requires
        g0 < GROUP_LIMIT,
        g1 < GROUP_LIMIT,
        g2 < GROUP_LIMIT,
        g3 < GROUP_LIMIT,
    ensures
        forall|t: int|
            0 <= t < 5 ==> b[t] as int == #[trigger] byte_digit(
                window_of_groups(g0 as int, g1 as int, g2 as int, g3 as int),
                t,
            ),
{
    let b0: u8 = (g0 >> 2) as u8;
    let b1: u8 = (((g0 & 0x03) << 6) | (g1 >> 4)) as u8;
    let b2: u8 = (((g1 & 0x0f) << 4) | (g2 >> 6)) as u8;
    let b3: u8 = (((g2 & 0x3f) << 2) | (g3 >> 8)) as u8;
    let b4: u8 = (g3 & 0xff) as u8;
    proof {
        assert({
            let w = g0 * 0x4000_0000 + g1 * 0x10_0000 + g2 * 0x400 + g3;
            &&& (g0 >> 2) as u8 == (w / 0x1_0000_0000) % 256
            &&& (((g0 & 0x03) << 6) | (g1 >> 4)) as u8 == (w / 0x100_0000) % 256
            &&& (((g1 & 0x0f) << 4) | (g2 >> 6)) as u8 == (w / 0x1_0000) % 256
            &&& (((g2 & 0x3f) << 2) | (g3 >> 8)) as u8 == (w / 0x100) % 256
            &&& (g3 & 0xff) as u8 == w % 256
        }) by (bit_vector)
            requires
                g0 < 1024,
                g1 < 1024,
                g2 < 1024,
                g3 < 1024,
        ;
    }
    [b0, b1, b2, b3, b4]
}

/// Packs a byte stream into ten-bit groups.
///
/// The result holds the bits of `bytes` in their order, ten to a group; where
/// the bits do not fill the last group, zero bits do.
pub fn pack(bytes: &[u8]) -> (groups: Vec<u16>)
    ensures
        groups@ == pack_spec(bytes@),
        groups_in_range(groups@),
{
    let n: usize = bytes.len();
    let mut groups: Vec<u16> = Vec::new();
    let mut i: usize = 0;
    while n - i >= 5
        invariant
            n == bytes@.len(),
            i <= n,
            i % 5 == 0,
            groups@.len() == 4 * (i / 5),
            forall|j: int|
                0 <= j < groups@.len() ==> groups@[j] as int == group_digit(
                    byte_window(bytes@, j / 4),
                    j % 4,
                ) && groups@[j] < GROUP_LIMIT,
        decreases n - i,
    {
        let g = pack_window(bytes[i], bytes[i + 1], bytes[i + 2], bytes[i + 3], bytes[i + 4]);
        groups.push(g[0]);
        groups.push(g[1]);
        groups.push(g[2]);
        groups.push(g[3]);
        i += 5;
    }
    let rest: usize = n - i;
    if rest > 0 {
        let b1: u8 = if rest > 1 { bytes[i + 1] } else { 0 };
        let b2: u8 = if rest > 2 { bytes[i + 2] } else { 0 };
        let b3: u8 = if rest > 3 { bytes[i + 3] } else { 0 };
        let g = pack_window(bytes[i], b1, b2, b3, 0);
        groups.push(g[0]);
        if rest > 1 {
            groups.push(g[1]);
        }
        if rest > 2 {
            groups.push(g[2]);
        }
        if rest > 3 {
            groups.push(g[3]);
        }
    }
    assert(groups@ =~= pack_spec(bytes@));
    groups
}

/// Unpacks ten-bit groups into the bytes that their bits spell.
///
/// The result holds every whole byte of the bit stream; the bits after the last
/// whole byte, fewer than eight, are left out.
pub fn unpack(groups: &[u16]) -> (bytes: Vec<u8>)
    requires
        groups_in_range(groups@),
    ensures
        bytes@ == unpack_spec(groups@),
{
    let m: usize = groups.len();
    let mut bytes: Vec<u8> = Vec::new();
    let mut j: usize = 0;
    while m - j >= 4
        invariant
            m == groups@.len(),
            groups_in_range(groups@),
            j <= m,
            j % 4 == 0,
            bytes@.len() == 5 * (j / 4),
            forall|i: int|
                0 <= i < bytes@.len() ==> bytes@[i] as int == byte_digit(
                    group_window(groups@, i / 5),
                    i % 5,
                ),
        decreases m - j,
    {
        let b = unpack_window(groups[j], groups[j + 1], groups[j + 2], groups[j + 3]);
        bytes.push(b[0]);
        bytes.push(b[1]);
        bytes.push(b[2]);
        bytes.push(b[3]);
        bytes.push(b[4]);
        j += 4;
    }
    let rest: usize = m - j;
    if rest > 0 {
        let g1: u16 = if rest > 1 { groups[j + 1] } else { 0 };
        let g2: u16 = if rest > 2 { groups[j + 2] } else { 0 };
        let b = unpack_window(groups[j], g1, g2, 0);
        bytes.push(b[0]);
        if rest > 1 {
            bytes.push(b[1]);
        }
        if rest > 2 {
            bytes.push(b[2]);
        }
    }
    assert(bytes@ =~= unpack_spec(groups@));
    bytes
}

} // verus!
