//! The addresses of the sound registers, and the bit fields of a register
//! byte stated as arithmetic.

use vstd::prelude::*;

verus! {

/// Channel 1 sweep: period, direction and shift.
pub const NR10: u16 = 0xFF10;

/// Channel 1 duty and length.
pub const NR11: u16 = 0xFF11;

/// Channel 1 volume envelope.
pub const NR12: u16 = 0xFF12;

/// Channel 1 frequency, low byte.
pub const NR13: u16 = 0xFF13;

/// Channel 1 frequency, high bits, length enable and trigger.
pub const NR14: u16 = 0xFF14;

/// Channel 2 duty and length.
pub const NR21: u16 = 0xFF16;

/// Channel 2 volume envelope.
pub const NR22: u16 = 0xFF17;

/// Channel 2 frequency, low byte.
pub const NR23: u16 = 0xFF18;

/// Channel 2 frequency, high bits, length enable and trigger.
pub const NR24: u16 = 0xFF19;

/// Channel 3 DAC enable.
pub const NR30: u16 = 0xFF1A;

/// Channel 3 length.
pub const NR31: u16 = 0xFF1B;

/// Channel 3 volume shift.
pub const NR32: u16 = 0xFF1C;

/// Channel 3 frequency, low byte.
pub const NR33: u16 = 0xFF1D;

/// Channel 3 frequency, high bits, length enable and trigger.
pub const NR34: u16 = 0xFF1E;

/// Channel 4 length.
pub const NR41: u16 = 0xFF20;

/// Channel 4 volume envelope.
pub const NR42: u16 = 0xFF21;

/// Channel 4 shift clock, register width and divider.
pub const NR43: u16 = 0xFF22;

/// Channel 4 length enable and trigger.
pub const NR44: u16 = 0xFF23;

/// Master volume of the two sides.
pub const NR50: u16 = 0xFF24;

/// Which channel sounds on which side.
pub const NR51: u16 = 0xFF25;

/// Master enable and channel status.
pub const NR52: u16 = 0xFF26;

/// The first byte of wave RAM.
pub const WAVE_RAM: u16 = 0xFF30;

/// The last byte of wave RAM.
pub const WAVE_RAM_END: u16 = 0xFF3F;

/// Whether bit `i` of the byte `v` is set.
pub open spec fn bit(v: int, i: int) -> bool {
    if i == 0 {
        v % 2 == 1
    } else if i == 1 {
        (v / 2) % 2 == 1
    } else if i == 2 {
        (v / 4) % 2 == 1
    } else if i == 3 {
        (v / 8) % 2 == 1
    } else if i == 4 {
        (v / 16) % 2 == 1
    } else if i == 5 {
        (v / 32) % 2 == 1
    } else if i == 6 {
        (v / 64) % 2 == 1
    } else {
        (v / 128) % 2 == 1
    }
}

/// The masks and shifts that pick the fields of a register byte, as
/// remainders and quotients.
pub proof fn lemma_byte_fields(v: u8)
    by (bit_vector)
    ensures
        v & 0x7 == v % 8,
        v & 0xF == v % 16,
        v & 0x3F == v % 64,
        v >> 1 == v / 2,
        v >> 2 == v / 4,
        v >> 4 == v / 16,
        v >> 5 == v / 32,
        v >> 6 == v / 64,
        (v >> 4) & 0x7 == (v / 16) % 8,
        (v & 0x8 == 0x8) == ((v / 8) % 2 == 1),
        (v & 0x40 == 0x40) == ((v / 64) % 2 == 1),
        (v & 0x80 == 0x80) == (v >= 128),
        (v & 0x01 == 0x01) == (v % 2 == 1),
        (v & 0x02 == 0x02) == ((v / 2) % 2 == 1),
        (v & 0x04 == 0x04) == ((v / 4) % 2 == 1),
        (v & 0x10 == 0x10) == ((v / 16) % 2 == 1),
        (v & 0x20 == 0x20) == ((v / 32) % 2 == 1),
        (v & 0x80 == 0x80) == ((v / 128) % 2 == 1),
{
}

/// `x` halved `s` times over, for a shift of up to seven places.
pub open spec fn shifted_right(x: int, s: int) -> int {
    if s <= 0 {
        x
    } else if s == 1 {
        x / 2
    } else if s == 2 {
        x / 4
    } else if s == 3 {
        x / 8
    } else if s == 4 {
        x / 16
    } else if s == 5 {
        x / 32
    } else if s == 6 {
        x / 64
    } else {
        x / 128
    }
}

/// A right shift of up to seven places as a division.
pub proof fn lemma_shift_right(x: u16, s: u16)
    by (bit_vector)
    requires
        s <= 7,
    ensures
        s == 0 ==> x >> s == x,
        s == 1 ==> x >> s == x / 2,
        s == 2 ==> x >> s == x / 4,
        s == 3 ==> x >> s == x / 8,
        s == 4 ==> x >> s == x / 16,
        s == 5 ==> x >> s == x / 32,
        s == 6 ==> x >> s == x / 64,
        s == 7 ==> x >> s == x / 128,
{
}

/// The two halves of an eleven-bit frequency: writing the low byte keeps
/// bits 8 to 10, writing the high bits keeps the low byte.
pub proof fn lemma_frequency_fields(f: u16, w: u16)
    by (bit_vector)
    requires
        w <= 255,
    ensures
        (f & 0x0700) | w == ((f / 256) % 8) * 256 + w,
        (f & 0x00FF) | ((w & 0x7) << 8u16) == f % 256 + (w % 8) * 256,
        (f & 0xFF00) | w == (f / 256) * 256 + w,
{
}

/// A byte of wave RAM is its two nibbles, the high one first.
pub proof fn lemma_nibbles(high: u8, low: u8)
    by (bit_vector)
    requires
        high <= 15,
        low <= 15,
    ensures
        (high << 4) | low == high * 16 + low,
{
}

} // verus!
