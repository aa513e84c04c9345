//! Bit-level helpers shared by every board, and the arithmetic facts about
//! masks and shifts that the address decoders rely on.

use vstd::prelude::*;

verus! {

/// Line `n` of the byte `v`.
pub open spec fn bit(v: u8, n: u8) -> bool {
    (v >> n) & 1 == 1
}

/// The byte `v` with line `n` driven to `level`.
pub open spec fn with_bit(v: u8, n: u8, level: bool) -> u8 {
    if level {
        v | (1u8 << n)
    } else {
        v & !(1u8 << n)
    }
}

/// Whether line `n` of `v` is high.
pub fn bit_is_set(v: u8, n: u8) -> (high: bool)
    requires
        n < 8,
    ensures
        high == bit(v, n),
{
    (v >> n) & 1 == 1
}

/// `v` with line `n` driven to `level`.
pub fn drive_bit(v: u8, n: u8, level: bool) -> (out: u8)
    requires
        n < 8,
    ensures
        out == with_bit(v, n, level),
{
    if level {
        v | (1u8 << n)
    } else {
        v & !(1u8 << n)
    }
}

/// Drive one switch of a port whose lines are pulled high and grounded when
/// pressed.
pub fn set_bit_active_low(port: &mut u8, n: u8, pressed: bool)
    requires
        n < 8,
    ensures
        *final(port) == with_bit(*old(port), n, !pressed),
{
    *port = drive_bit(*port, n, !pressed);
}

/// Drive one switch of a port whose lines go high when pressed.
pub fn set_bit_active_high(port: &mut u8, n: u8, pressed: bool)
    requires
        n < 8,
    ensures
        *final(port) == with_bit(*old(port), n, pressed),
{
    *port = drive_bit(*port, n, pressed);
}

/// A masked value never exceeds its mask, and a right shift never grows.
pub broadcast proof fn mask_bound_u8(x: u8, m: u8)
    ensures
        #[trigger] (x & m) <= m,
{
    mask_bound_u32(x as u32, m as u32);
}

pub broadcast proof fn mask_bound_u16(x: u16, m: u16)
    ensures
        #[trigger] (x & m) <= m,
{
    mask_bound_u32(x as u32, m as u32);
}

pub broadcast proof fn mask_bound_u32(x: u32, m: u32)
    ensures
        #[trigger] (x & m) <= m,
{
    assert((x & m) <= m) by (bit_vector);
}

pub broadcast proof fn mask_bound_usize(x: usize, m: usize)
    ensures
        #[trigger] (x & m) <= m,
{
    assert((x & m) <= m) by (bit_vector);
}

pub broadcast group group_mask_bounds {
    mask_bound_u8,
    mask_bound_u16,
    mask_bound_u32,
    mask_bound_usize,
}

/// What driving one line does to every line of a byte.
pub proof fn lemma_with_bit(v: u8, n: u8, k: u8, level: bool)
    requires
        n < 8,
        k < 8,
    ensures
        bit(with_bit(v, n, level), k) == if n == k { level } else { bit(v, k) },
{
    assert({
        &&& ((v | (1u8 << n)) >> k) & 1 == if n == k { 1 } else { (v >> k) & 1 }
        &&& ((v & !(1u8 << n)) >> k) & 1 == if n == k { 0 } else { (v >> k) & 1 }
    }) by (bit_vector)
        requires
            n < 8,
            k < 8,
    ;
}

/// The lines of a byte by arithmetic and by masks.
pub proof fn lemma_lines(v: u8)
    ensures
        bit(v, 0) == (v % 2 == 1),
        bit(v, 0) == (v & 0x01 != 0),
        bit(v, 1) == ((v / 2) % 2 == 1),
        bit(v, 1) == (v & 0x02 != 0),
        bit(v, 2) == ((v / 4) % 2 == 1),
        bit(v, 2) == (v & 0x04 != 0),
        bit(v, 3) == ((v / 8) % 2 == 1),
        bit(v, 3) == (v & 0x08 != 0),
        bit(v, 4) == ((v / 16) % 2 == 1),
        bit(v, 4) == (v & 0x10 != 0),
        bit(v, 5) == ((v / 32) % 2 == 1),
        bit(v, 5) == (v & 0x20 != 0),
        bit(v, 6) == ((v / 64) % 2 == 1),
        bit(v, 6) == (v & 0x40 != 0),
        bit(v, 7) == (v / 128 == 1),
        bit(v, 7) == (v & 0x80 != 0),
        v & 0x01 == v % 2,
        v & 0x03 == v % 4,
        v & 0x07 == v % 8,
        v & 0x0F == v % 16,
        v & 0x1F == v % 32,
        v & 0x7F == v % 128,
        v >> 1 == v / 2,
        v >> 2 == v / 4,
        v >> 3 == v / 8,
        v >> 4 == v / 16,
        v >> 5 == v / 32,
        v >> 6 == v / 64,
        v >> 7 == v / 128,
        (v as usize & 3) == v % 4,
{
    assert({
        &&& v & 0x01 == v % 2 && v & 0x03 == v % 4 && v & 0x07 == v % 8 && v & 0x0F == v % 16
        &&& v & 0x1F == v % 32 && v & 0x7F == v % 128 && (v as usize & 3) == v % 4
        &&& v >> 1 == v / 2 && v >> 2 == v / 4 && v >> 3 == v / 8 && v >> 4 == v / 16
        &&& v >> 5 == v / 32 && v >> 6 == v / 64 && v >> 7 == v / 128
        &&& ((v >> 0u8) & 1 == 1) == (v % 2 == 1) && (v % 2 == 1) == (v & 0x01 != 0)
        &&& ((v >> 1u8) & 1 == 1) == ((v / 2) % 2 == 1) && ((v / 2) % 2 == 1) == (v & 0x02 != 0)
        &&& ((v >> 2u8) & 1 == 1) == ((v / 4) % 2 == 1) && ((v / 4) % 2 == 1) == (v & 0x04 != 0)
        &&& ((v >> 3u8) & 1 == 1) == ((v / 8) % 2 == 1) && ((v / 8) % 2 == 1) == (v & 0x08 != 0)
        &&& ((v >> 4u8) & 1 == 1) == ((v / 16) % 2 == 1) && ((v / 16) % 2 == 1) == (v & 0x10 != 0)
        &&& ((v >> 5u8) & 1 == 1) == ((v / 32) % 2 == 1) && ((v / 32) % 2 == 1) == (v & 0x20 != 0)
        &&& ((v >> 6u8) & 1 == 1) == ((v / 64) % 2 == 1) && ((v / 64) % 2 == 1) == (v & 0x40 != 0)
        &&& ((v >> 7u8) & 1 == 1) == (v / 128 == 1) && (v / 128 == 1) == (v & 0x80 != 0)
    }) by (bit_vector);
}

/// The lines of a word, and its low and high parts.
pub proof fn lemma_word_fields(v: u16)
    ensures
        v & 0x0001 == v % 2,
        v & 0x0003 == v % 4,
        v & 0x0007 == v % 8,
        v & 0x000F == v % 16,
        v & 0x003F == v % 64,
        v & 0x0070 == 16 * ((v / 16) % 8),
        v & 0x00F8 == 8 * ((v / 8) % 32),
        v & 0x07FF == v % 2048,
        v & 0x0FFF == v % 4096,
        v & 0x1000 == 4096 * ((v / 4096) % 2),
        v & 0x1800 == 2048 * ((v / 2048) % 4),
        v & 0x2000 == 8192 * ((v / 8192) % 2),
{
    assert({
        &&& v & 0x0001 == v % 2 && v & 0x0003 == v % 4 && v & 0x0007 == v % 8
        &&& v & 0x000F == v % 16 && v & 0x003F == v % 64 && v & 0x07FF == v % 2048
        &&& v & 0x0070 == 16 * ((v / 16) % 8) && v & 0x00F8 == 8 * ((v / 8) % 32)
        &&& v & 0x0FFF == v % 4096 && v & 0x1000 == 4096 * ((v / 4096) % 2)
        &&& v & 0x1800 == 2048 * ((v / 2048) % 4) && v & 0x2000 == 8192 * ((v / 8192) % 2)
    }) by (bit_vector);
}

/// Driving a line again forgets the earlier level.
pub proof fn lemma_with_bit_twice(v: u8, n: u8, first: bool, second: bool)
    requires
        n < 8,
    ensures
        with_bit(with_bit(v, n, first), n, second) == with_bit(v, n, second),
{
    assert({
        &&& ((v | (1u8 << n)) & !(1u8 << n)) == (v & !(1u8 << n))
        &&& ((v & !(1u8 << n)) | (1u8 << n)) == (v | (1u8 << n))
        &&& ((v | (1u8 << n)) | (1u8 << n)) == (v | (1u8 << n))
        &&& ((v & !(1u8 << n)) & !(1u8 << n)) == (v & !(1u8 << n))
    }) by (bit_vector);
}

} // verus!
