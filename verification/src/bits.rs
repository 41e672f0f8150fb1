//! The bit streams behind the packer.
//!
//! The packer is stated over windows of forty bits. This module states it bit
//! by bit: packing keeps the bits of the bytes in their order and fills the
//! last group with zero bits; unpacking keeps the bits of the groups as far as
//! they fill whole bytes.

use crate::packer::{
    byte_digit, byte_or_zero, byte_window, group_digit, group_window, groups_in_range, pack_spec,
    packed_len, unpack_spec, unpacked_len,
};
use crate::windows::{
    lemma_byte_digits, lemma_byte_of_unpacked, lemma_byte_of_window, lemma_digit_ranges,
    lemma_group_of_window, lemma_pack_keeps_windows,
};
use vstd::prelude::*;

verus! {

/// Bit `t` of a byte, counted from the most significant bit, which is bit 0.
pub open spec fn byte_bit(b: u8, t: u64) -> bool {
    ((b as u64) >> ((7 - t) as u64)) & 1 == 1
}

/// Bit `t` of a ten-bit group, counted from the most significant bit, which is
/// bit 0.
pub open spec fn group_bit(g: u16, t: u64) -> bool {
    ((g as u64) >> ((9 - t) as u64)) & 1 == 1
}

/// Bit `p` of a window of forty bits, counted from the most significant bit.
pub open spec fn window_bit(window: u64, p: u64) -> bool {
    (window >> ((39 - p) as u64)) & 1 == 1
}

/// The bits of a byte stream, byte after byte, each from its most significant
/// bit down.
pub open spec fn bits_of_bytes(bytes: Seq<u8>) -> Seq<bool> {
    Seq::new(8 * bytes.len(), |k: int| byte_bit(bytes[k / 8], (k % 8) as u64))
}

/// The bits of a group stream, group after group, each from its most
/// significant bit down.
pub open spec fn bits_of_groups(groups: Seq<u16>) -> Seq<bool> {
    Seq::new(10 * groups.len(), |k: int| group_bit(groups[k / 10], (k % 10) as u64))
}

/// So many zero bits.
pub open spec fn zero_bits(count: int) -> Seq<bool> {
    Seq::new(count as nat, |k: int| false)
}

/// Bit `p` of a window is bit `p % 8` of its byte `p / 8`.
proof fn lemma_window_bit_in_byte(window: u64, p: u64)
    requires
        window < 0x100_0000_0000,
        p < 40,
    ensures
        0 <= byte_digit(window as int, (p / 8) as int) < 256,
        window_bit(window, p) == byte_bit(
            byte_digit(window as int, (p / 8) as int) as u8,
            (p % 8) as u64,
        ),
{
    lemma_digit_ranges(window as int);
    let t = p / 8;
    let b: u64 = if t == 0 {
        (window / 0x1_0000_0000) % 256
    } else if t == 1 {
        (window / 0x100_0000) % 256
    } else if t == 2 {
        (window / 0x1_0000) % 256
    } else if t == 3 {
        (window / 0x100) % 256
    } else {
        window % 256
    };
    assert(b == byte_digit(window as int, t as int));
    let s = p % 8;
    assert(((window >> ((39 - p) as u64)) & 1 == 1) == ((b >> ((7 - s) as u64)) & 1 == 1))
        by (bit_vector)
        requires
            window < 0x100_0000_0000,
            p < 40,
            s == p % 8,
            b == if p / 8 == 0 {
                (window / 0x1_0000_0000) % 256
            } else if p / 8 == 1 {
                (window / 0x100_0000) % 256
            } else if p / 8 == 2 {
                (window / 0x1_0000) % 256
            } else if p / 8 == 3 {
                (window / 0x100) % 256
            } else {
                window % 256
            },
    ;
    assert((b as u8) as u64 == b);
}

/// Bit `p` of a window is bit `p % 10` of its group `p / 10`.
proof fn lemma_window_bit_in_group(window: u64, p: u64)
    requires
        window < 0x100_0000_0000,
        p < 40,
    ensures
        0 <= group_digit(window as int, (p / 10) as int) < 1024,
        window_bit(window, p) == group_bit(
            group_digit(window as int, (p / 10) as int) as u16,
            (p % 10) as u64,
        ),
{
    lemma_digit_ranges(window as int);
    let t = p / 10;
    let g: u64 = if t == 0 {
        (window / 0x4000_0000) % 1024
    } else if t == 1 {
        (window / 0x10_0000) % 1024
    } else if t == 2 {
        (window / 0x400) % 1024
    } else {
        window % 1024
    };
    assert(g == group_digit(window as int, t as int));
    let s = p % 10;
    assert(((window >> ((39 - p) as u64)) & 1 == 1) == ((g >> ((9 - s) as u64)) & 1 == 1))
        by (bit_vector)
        requires
            window < 0x100_0000_0000,
            p < 40,
            s == p % 10,
            g == if p / 10 == 0 {
                (window / 0x4000_0000) % 1024
            } else if p / 10 == 1 {
                (window / 0x10_0000) % 1024
            } else if p / 10 == 2 {
                (window / 0x400) % 1024
            } else {
                window % 1024
            },
    ;
    assert((g as u16) as u64 == g);
}

/// Bit `k` of a byte stream is bit `k % 40` of its window `k / 40`.
pub proof fn lemma_byte_stream_bit(bytes: Seq<u8>, k: int)
    requires
        0 <= k < 8 * bytes.len(),
    ensures
        0 <= byte_window(bytes, k / 40) < 0x100_0000_0000,
        bits_of_bytes(bytes)[k] == window_bit(byte_window(bytes, k / 40) as u64, (k % 40) as u64),
{
    let w = k / 40;
    let p = k % 40;
    let i = k / 8;
    assert(k == 40 * w + p);
    assert(i == 5 * w + p / 8);
    assert(i / 5 == w && i % 5 == p / 8);
    assert(k % 8 == p % 8);
    lemma_byte_digits(
        byte_or_zero(bytes, 5 * w),
        byte_or_zero(bytes, 5 * w + 1),
        byte_or_zero(bytes, 5 * w + 2),
        byte_or_zero(bytes, 5 * w + 3),
        byte_or_zero(bytes, 5 * w + 4),
    );
    lemma_byte_of_window(bytes, i);
    lemma_window_bit_in_byte(byte_window(bytes, w) as u64, p as u64);
}

/// Bit `k` of a group stream is bit `k % 40` of its window `k / 40`.
pub proof fn lemma_group_stream_bit(groups: Seq<u16>, k: int)
    requires
        groups_in_range(groups),
        0 <= k < 10 * groups.len(),
    ensures
        0 <= group_window(groups, k / 40) < 0x100_0000_0000,
        bits_of_groups(groups)[k] == window_bit(
            group_window(groups, k / 40) as u64,
            (k % 40) as u64,
        ),
{
    let w = k / 40;
    let p = k % 40;
    let j = k / 10;
    assert(k == 40 * w + p);
    assert(j == 4 * w + p / 10);
    assert(j / 4 == w && j % 4 == p / 10);
    assert(k % 10 == p % 10);
    lemma_group_of_window(groups, j);
    lemma_window_bit_in_group(group_window(groups, w) as u64, p as u64);
}

/// Packing keeps the bit stream: the bits of the groups are the bits of the
/// bytes, in their order, followed by zero bits up to the end of the last group.
pub proof fn pack_keeps_bits(bytes: Seq<u8>)
    ensures
        bits_of_groups(pack_spec(bytes)) == bits_of_bytes(bytes) + zero_bits(
            10 * packed_len(bytes.len() as int) - 8 * bytes.len(),
        ),
{
    let n = bytes.len() as int;
    let groups = pack_spec(bytes);
    let left = bits_of_groups(groups);
    let right = bits_of_bytes(bytes) + zero_bits(10 * packed_len(n) - 8 * n);
    lemma_pack_keeps_windows(bytes, 0);
    assert(left.len() == right.len());
    assert forall|k: int| 0 <= k < left.len() implies left[k] == right[k] by {
        let w = k / 40;
        let p = k % 40;
        lemma_pack_keeps_windows(bytes, w);
        lemma_group_stream_bit(groups, k);
        if k < 8 * n {
            lemma_byte_stream_bit(bytes, k);
        } else {
            let i = k / 8;
            assert(k == 40 * w + p);
            assert(i == 5 * w + p / 8);
            assert(i / 5 == w && i % 5 == p / 8);
            lemma_byte_digits(
                byte_or_zero(bytes, 5 * w),
                byte_or_zero(bytes, 5 * w + 1),
                byte_or_zero(bytes, 5 * w + 2),
                byte_or_zero(bytes, 5 * w + 3),
                byte_or_zero(bytes, 5 * w + 4),
            );
            lemma_byte_of_window(bytes, i);
            lemma_window_bit_in_byte(byte_window(bytes, w) as u64, p as u64);
            assert(byte_or_zero(bytes, i) == 0);
            lemma_zero_has_no_bit((p % 8) as u64);
        }
    }
    assert(left =~= right);
}

/// No bit of the byte zero is set.
proof fn lemma_zero_has_no_bit(t: u64)
    requires
        t < 8,
    ensures
        !byte_bit(0, t),
{
    assert(((0u64 >> ((7 - t) as u64)) & 1 == 1) == false) by (bit_vector)
        requires
            t < 8,
    ;
}

/// Unpacking keeps the bit stream: the bits of the bytes are the bits of the
/// groups, in their order, as far as they fill whole bytes.
pub proof fn unpack_keeps_bits(groups: Seq<u16>)
    requires
        groups_in_range(groups),
    ensures
        8 * unpacked_len(groups.len() as int) <= 10 * groups.len(),
        10 * groups.len() - 8 * unpacked_len(groups.len() as int) < 8,
        bits_of_bytes(unpack_spec(groups)) == bits_of_groups(groups).take(
            8 * unpacked_len(groups.len() as int),
        ),
{
    let bytes = unpack_spec(groups);
    let left = bits_of_bytes(bytes);
    let right = bits_of_groups(groups).take(8 * unpacked_len(groups.len() as int));
    assert(left.len() == right.len());
    assert forall|k: int| 0 <= k < left.len() implies left[k] == right[k] by {
        let w = k / 40;
        let p = k % 40;
        let i = k / 8;
        assert(k == 40 * w + p);
        assert(i == 5 * w + p / 8);
        assert(i / 5 == w && i % 5 == p / 8);
        assert(k % 8 == p % 8);
        lemma_group_stream_bit(groups, k);
        lemma_byte_of_unpacked(groups, i);
        lemma_window_bit_in_byte(group_window(groups, w) as u64, p as u64);
    }
    assert(left =~= right);
}

} // verus!
