//! Facts about windows: how bytes and groups are digits of the same
//! forty-bit numbers, and what that says of packing and unpacking.

use crate::packer::{
    byte_digit, byte_or_zero, byte_window, group_digit, group_or_zero, group_window,
    groups_in_range, pack_spec, packed_len, unpack_spec, unpacked_len, window_of_bytes,
    window_of_groups,
};
use crate::{padding_flag, payload_spec};
use vstd::prelude::*;

verus! {

/// The groups of a window are its digits: four ten-bit values put together
/// as a window come apart again as the same four.
pub proof fn lemma_group_digits(g0: int, g1: int, g2: int, g3: int)
    requires
        0 <= g0 < 1024,
        0 <= g1 < 1024,
        0 <= g2 < 1024,
        0 <= g3 < 1024,
    ensures
        0 <= window_of_groups(g0, g1, g2, g3) < 0x100_0000_0000,
        group_digit(window_of_groups(g0, g1, g2, g3), 0) == g0,
        group_digit(window_of_groups(g0, g1, g2, g3), 1) == g1,
        group_digit(window_of_groups(g0, g1, g2, g3), 2) == g2,
        group_digit(window_of_groups(g0, g1, g2, g3), 3) == g3,
{
    let a0 = g0 as u64;
    let a1 = g1 as u64;
    let a2 = g2 as u64;
    let a3 = g3 as u64;
    assert({
        let w = a0 * 0x4000_0000 + a1 * 0x10_0000 + a2 * 0x400 + a3;
        &&& w < 0x100_0000_0000
        &&& (w / 0x4000_0000) % 1024 == a0
        &&& (w / 0x10_0000) % 1024 == a1
        &&& (w / 0x400) % 1024 == a2
        &&& w % 1024 == a3
    }) by (bit_vector)
        requires
            a0 < 1024,
            a1 < 1024,
            a2 < 1024,
            a3 < 1024,
    ;
}

/// The bytes of a window are its digits: five bytes put together as a window
/// come apart again as the same five.
pub proof fn lemma_byte_digits(b0: int, b1: int, b2: int, b3: int, b4: int)
    requires
        0 <= b0 < 256,
        0 <= b1 < 256,
        0 <= b2 < 256,
        0 <= b3 < 256,
        0 <= b4 < 256,
    ensures
        0 <= window_of_bytes(b0, b1, b2, b3, b4) < 0x100_0000_0000,
        byte_digit(window_of_bytes(b0, b1, b2, b3, b4), 0) == b0,
        byte_digit(window_of_bytes(b0, b1, b2, b3, b4), 1) == b1,
        byte_digit(window_of_bytes(b0, b1, b2, b3, b4), 2) == b2,
        byte_digit(window_of_bytes(b0, b1, b2, b3, b4), 3) == b3,
        byte_digit(window_of_bytes(b0, b1, b2, b3, b4), 4) == b4,
{
    let a0 = b0 as u64;
    let a1 = b1 as u64;
    let a2 = b2 as u64;
    let a3 = b3 as u64;
    let a4 = b4 as u64;
    assert({
        let w = a0 * 0x1_0000_0000 + a1 * 0x100_0000 + a2 * 0x1_0000 + a3 * 0x100 + a4;
        &&& (w / 0x1_0000_0000) % 256 == a0
        &&& (w / 0x100_0000) % 256 == a1
        &&& (w / 0x1_0000) % 256 == a2
        &&& (w / 0x100) % 256 == a3
        &&& w % 256 == a4
    }) by (bit_vector)
        requires
            a0 < 256,
            a1 < 256,
            a2 < 256,
            a3 < 256,
            a4 < 256,
    ;
}

/// A window is made of its digits, in either width.
pub proof fn lemma_window_of_digits(window: int)
    requires
        0 <= window < 0x100_0000_0000,
    ensures
        window == window_of_groups(
            group_digit(window, 0),
            group_digit(window, 1),
            group_digit(window, 2),
            group_digit(window, 3),
        ),
        window == window_of_bytes(
            byte_digit(window, 0),
            byte_digit(window, 1),
            byte_digit(window, 2),
            byte_digit(window, 3),
            byte_digit(window, 4),
        ),
{
    let w = window as u64;
    assert(w == ((w / 0x4000_0000) % 1024) * 0x4000_0000 + ((w / 0x10_0000) % 1024) * 0x10_0000
        + ((w / 0x400) % 1024) * 0x400 + w % 1024) by (bit_vector)
        requires
            w < 0x100_0000_0000,
    ;
    assert(w == ((w / 0x1_0000_0000) % 256) * 0x1_0000_0000 + ((w / 0x100_0000) % 256)
        * 0x100_0000 + ((w / 0x1_0000) % 256) * 0x1_0000 + ((w / 0x100) % 256) * 0x100 + w % 256)
        by (bit_vector)
        requires
            w < 0x100_0000_0000,
    ;
}

/// The digits of a window are bytes and ten-bit values.
pub proof fn lemma_digit_ranges(window: int)
    requires
        0 <= window,
    ensures
        forall|t: int| 0 <= #[trigger] byte_digit(window, t) < 256,
        forall|t: int| 0 <= #[trigger] group_digit(window, t) < 1024,
{
}

/// Where the bytes of a window end early, the groups after them are zero.
proof fn lemma_trailing_digits(b0: int, b1: int, b2: int)
    requires
        0 <= b0 < 256,
        0 <= b1 < 256,
        0 <= b2 < 256,
    ensures
        group_digit(window_of_bytes(b0, 0, 0, 0, 0), 1) == 0,
        group_digit(window_of_bytes(b0, b1, 0, 0, 0), 2) == 0,
        group_digit(window_of_bytes(b0, b1, b2, 0, 0), 3) == 0,
{
    let a0 = b0 as u64;
    let a1 = b1 as u64;
    let a2 = b2 as u64;
    assert({
        &&& ((a0 * 0x1_0000_0000) / 0x10_0000) % 1024 == 0
        &&& ((a0 * 0x1_0000_0000 + a1 * 0x100_0000) / 0x400) % 1024 == 0
        &&& (a0 * 0x1_0000_0000 + a1 * 0x100_0000 + a2 * 0x1_0000) % 1024 == 0
    }) by (bit_vector)
        requires
            a0 < 256,
            a1 < 256,
            a2 < 256,
    ;
}

/// Packing keeps every window: the groups of a byte stream spell, window by
/// window, the number that the bytes spell.
pub proof fn lemma_pack_keeps_windows(bytes: Seq<u8>, w: int)
    requires
        0 <= w,
    ensures
        group_window(pack_spec(bytes), w) == byte_window(bytes, w),
        groups_in_range(pack_spec(bytes)),
{
    let groups = pack_spec(bytes);
    let b0 = byte_or_zero(bytes, 5 * w);
    let b1 = byte_or_zero(bytes, 5 * w + 1);
    let b2 = byte_or_zero(bytes, 5 * w + 2);
    let b3 = byte_or_zero(bytes, 5 * w + 3);
    let b4 = byte_or_zero(bytes, 5 * w + 4);
    let window = byte_window(bytes, w);
    lemma_byte_digits(b0, b1, b2, b3, b4);
    lemma_window_of_digits(window);
    lemma_trailing_digits(b0, b1, b2);
    assert forall|t: int| 0 <= t < 4 implies group_or_zero(groups, 4 * w + t) == group_digit(
        window,
        t,
    ) by {
        let j = 4 * w + t;
        assert(j / 4 == w && j % 4 == t);
        if j < groups.len() {
            assert(groups[j] == group_digit(byte_window(bytes, j / 4), j % 4) as u16);
        }
    }
    assert forall|j: int| 0 <= j < groups.len() implies groups[j] < 1024 by {
        let window = byte_window(bytes, j / 4);
        lemma_byte_digits(
            byte_or_zero(bytes, 5 * (j / 4)),
            byte_or_zero(bytes, 5 * (j / 4) + 1),
            byte_or_zero(bytes, 5 * (j / 4) + 2),
            byte_or_zero(bytes, 5 * (j / 4) + 3),
            byte_or_zero(bytes, 5 * (j / 4) + 4),
        );
        assert(groups[j] == group_digit(window, j % 4) as u16);
    }
}

/// Byte `i` of a stream is digit `i % 5` of its window `i / 5`.
pub proof fn lemma_byte_of_window(bytes: Seq<u8>, i: int)
    requires
        0 <= i,
    ensures
        byte_digit(byte_window(bytes, i / 5), i % 5) == byte_or_zero(bytes, i),
{
    let w = i / 5;
    lemma_byte_digits(
        byte_or_zero(bytes, 5 * w),
        byte_or_zero(bytes, 5 * w + 1),
        byte_or_zero(bytes, 5 * w + 2),
        byte_or_zero(bytes, 5 * w + 3),
        byte_or_zero(bytes, 5 * w + 4),
    );
    assert(i == 5 * w + i % 5);
}

/// Byte `i` of the unpacked groups is digit `i % 5` of their window `i / 5`.
pub proof fn lemma_byte_of_unpacked(groups: Seq<u16>, i: int)
    requires
        0 <= i < unpacked_len(groups.len() as int),
    ensures
        0 <= byte_digit(group_window(groups, i / 5), i % 5) < 256,
        unpack_spec(groups)[i] as int == byte_digit(group_window(groups, i / 5), i % 5),
{
    lemma_digit_ranges(group_window(groups, i / 5));
}

/// Group `j` of a stream of ten-bit values is digit `j % 4` of its window `j / 4`.
pub proof fn lemma_group_of_window(groups: Seq<u16>, j: int)
    requires
        groups_in_range(groups),
        0 <= j < groups.len(),
    ensures
        0 <= group_window(groups, j / 4) < 0x100_0000_0000,
        group_digit(group_window(groups, j / 4), j % 4) == groups[j],
{
    let w = j / 4;
    lemma_group_digits(
        group_or_zero(groups, 4 * w),
        group_or_zero(groups, 4 * w + 1),
        group_or_zero(groups, 4 * w + 2),
        group_or_zero(groups, 4 * w + 3),
    );
    assert(j == 4 * w + j % 4);
}

/// How many groups `n` bytes take and how many whole bytes those groups
/// hold: one byte more than `n` exactly where the flag is set.
pub proof fn lemma_lengths(n: int)
    requires
        0 <= n,
    ensures
        padding_flag(n) <==> n % 5 == 4,
        packed_len(n) == 4 * (n / 5) + if n % 5 == 0 {
            0
        } else {
            n % 5
        },
        unpacked_len(packed_len(n)) == if n % 5 == 4 {
            n + 1
        } else {
            n
        },
        n % 5 == 4 ==> packed_len(n) > 0 && packed_len(n) % 4 == 0,
{
    let q = n / 5;
    let r = n % 5;
    assert(n == 5 * q + r);
    assert(8 * n == 10 * (4 * q) + 8 * r);
    if r == 0 {
        assert(8 * n + 9 == 10 * (4 * q) + 9);
        assert(10 * packed_len(n) == 8 * (5 * q));
    } else if r == 1 {
        assert(8 * n + 9 == 10 * (4 * q + 1) + 7);
        assert(10 * packed_len(n) == 8 * (5 * q + 1) + 2);
    } else if r == 2 {
        assert(8 * n + 9 == 10 * (4 * q + 2) + 5);
        assert(10 * packed_len(n) == 8 * (5 * q + 2) + 4);
    } else if r == 3 {
        assert(8 * n + 9 == 10 * (4 * q + 3) + 3);
        assert(10 * packed_len(n) == 8 * (5 * q + 3) + 6);
    } else {
        assert(8 * n + 9 == 10 * (4 * q + 4) + 1);
        assert(10 * packed_len(n) == 8 * (5 * q + 5));
    }
}

/// Every group before the last lies within the bytes of the payload: the
/// second of the two bytes that it touches is one of them.
pub proof fn lemma_group_inside(n: int, j: int)
    requires
        0 <= n,
        0 <= j < packed_len(n) - 1,
    ensures
        5 * (j / 4) + j % 4 + 1 < n,
{
    lemma_lengths(n);
    let q = n / 5;
    let r = n % 5;
    let w = j / 4;
    let t = j % 4;
    assert(n == 5 * q + r);
    assert(j == 4 * w + t);
    if w < q {
        assert(5 * w + 5 <= 5 * q);
    }
}

/// Unpacking what was packed gives the bytes back: under the flag that
/// belongs to their number, the groups of a byte stream spell that stream.
pub proof fn lemma_unpack_pack(bytes: Seq<u8>)
    ensures
        payload_spec(pack_spec(bytes), padding_flag(bytes.len() as int)) == bytes,
{
    let n = bytes.len() as int;
    let groups = pack_spec(bytes);
    let unpacked = unpack_spec(groups);
    lemma_lengths(n);
    assert(groups.len() == packed_len(n));
    assert(unpacked.len() == unpacked_len(packed_len(n)));
    assert forall|i: int| 0 <= i < n implies unpacked[i] == bytes[i] by {
        lemma_pack_keeps_windows(bytes, i / 5);
        lemma_byte_of_window(bytes, i);
    }
    assert(payload_spec(groups, padding_flag(n)) =~= bytes);
}

/// Four groups are told by the five bytes that they spell: different groups
/// spell different bytes.
pub proof fn lemma_unpack_window_injective(a: Seq<u16>, b: Seq<u16>)
    requires
        a.len() == 4,
        b.len() == 4,
        groups_in_range(a),
        groups_in_range(b),
        unpack_spec(a) == unpack_spec(b),
    ensures
        a == b,
{
    let wa = group_window(a, 0);
    let wb = group_window(b, 0);
    lemma_group_digits(a[0] as int, a[1] as int, a[2] as int, a[3] as int);
    lemma_group_digits(b[0] as int, b[1] as int, b[2] as int, b[3] as int);
    lemma_window_of_digits(wa);
    lemma_window_of_digits(wb);
    assert forall|t: int| 0 <= t < 5 implies byte_digit(wa, t) == byte_digit(wb, t) by {
        assert(unpack_spec(a)[t] == byte_digit(group_window(a, t / 5), t % 5) as u8);
        assert(unpack_spec(b)[t] == byte_digit(group_window(b, t / 5), t % 5) as u8);
        lemma_digit_ranges(wa);
        lemma_digit_ranges(wb);
    }
    assert(byte_digit(wa, 0) == byte_digit(wb, 0));
    assert(byte_digit(wa, 1) == byte_digit(wb, 1));
    assert(byte_digit(wa, 2) == byte_digit(wb, 2));
    assert(byte_digit(wa, 3) == byte_digit(wb, 3));
    assert(byte_digit(wa, 4) == byte_digit(wb, 4));
    assert(wa == wb);
    assert(a =~= b);
}

/// A group lies within two neighbouring bytes of its window: windows that
/// agree in bytes `t` and `t + 1` agree in group `t`.
pub proof fn lemma_group_within_two_bytes(v: int, w: int, t: int)
    requires
        0 <= v < 0x100_0000_0000,
        0 <= w < 0x100_0000_0000,
        0 <= t < 4,
        byte_digit(v, t) == byte_digit(w, t),
        byte_digit(v, t + 1) == byte_digit(w, t + 1),
    ensures
        group_digit(v, t) == group_digit(w, t),
{
    let a = v as u64;
    let b = w as u64;
    assert({
        &&& ((a / 0x1_0000_0000) % 256 == (b / 0x1_0000_0000) % 256 && (a / 0x100_0000) % 256 == (b
            / 0x100_0000) % 256) ==> (a / 0x4000_0000) % 1024 == (b / 0x4000_0000) % 1024
        &&& ((a / 0x100_0000) % 256 == (b / 0x100_0000) % 256 && (a / 0x1_0000) % 256 == (b
            / 0x1_0000) % 256) ==> (a / 0x10_0000) % 1024 == (b / 0x10_0000) % 1024
        &&& ((a / 0x1_0000) % 256 == (b / 0x1_0000) % 256 && (a / 0x100) % 256 == (b / 0x100) % 256)
            ==> (a / 0x400) % 1024 == (b / 0x400) % 1024
        &&& ((a / 0x100) % 256 == (b / 0x100) % 256 && a % 256 == b % 256) ==> a % 1024 == b
            % 1024
    }) by (bit_vector)
        requires
            a < 0x100_0000_0000,
            b < 0x100_0000_0000,
    ;
}

/// Groups that spell the same bytes agree in every place before the last.
pub proof fn lemma_same_bytes_same_groups(a: Seq<u16>, b: Seq<u16>, n: int, j: int)
    requires
        groups_in_range(a),
        groups_in_range(b),
        a.len() == b.len(),
        0 <= j < a.len(),
        0 <= n <= unpacked_len(a.len() as int),
        5 * (j / 4) + j % 4 + 1 < n,
        forall|i: int| 0 <= i < n ==> unpack_spec(a)[i] == unpack_spec(b)[i],
    ensures
        a[j] == b[j],
{
    let w = j / 4;
    let t = j % 4;
    let i = 5 * w + t;
    assert(i / 5 == w && i % 5 == t);
    assert((i + 1) / 5 == w && (i + 1) % 5 == t + 1);
    lemma_group_of_window(a, j);
    lemma_group_of_window(b, j);
    lemma_byte_of_unpacked(a, i);
    lemma_byte_of_unpacked(a, i + 1);
    lemma_byte_of_unpacked(b, i);
    lemma_byte_of_unpacked(b, i + 1);
    assert(unpack_spec(a)[i] == unpack_spec(b)[i]);
    assert(unpack_spec(a)[i + 1] == unpack_spec(b)[i + 1]);
    lemma_group_within_two_bytes(group_window(a, w), group_window(b, w), t);
}

/// A payload whose groups were changed in one place before the last no
/// longer spells the same bytes, whatever the flag.
pub proof fn lemma_changed_group_changes_bytes(payload: Seq<u8>, j: int, g: u16, padded: bool)
    requires
        0 <= j < packed_len(payload.len() as int) - 1,
        g < 1024,
        g != pack_spec(payload)[j],
    ensures
        payload_spec(pack_spec(payload).update(j, g), padded) != payload,
{
    let n = payload.len() as int;
    let groups = pack_spec(payload);
    let changed = groups.update(j, g);
    let other = payload_spec(changed, padded);
    lemma_lengths(n);
    lemma_group_inside(n, j);
    lemma_pack_keeps_windows(payload, 0);
    lemma_unpack_pack(payload);
    if other == payload {
        assert forall|i: int| 0 <= i < n implies unpack_spec(changed)[i] == unpack_spec(
            groups,
        )[i] by {
            assert(unpack_spec(changed)[i] == other[i]);
            assert(unpack_spec(groups)[i] == payload[i]);
        }
        lemma_same_bytes_same_groups(changed, groups, n, j);
        assert(false);
    }
}

} // verus!
