//! How long the shift register of the noise channel takes to repeat.
//!
//! With the register tapped at bit 14 a shift moves bits 0 to 13 up one
//! place and puts the sum of bits 14 and 13 in bit 0; bit 15 holds what
//! falls out and feeds nothing. A shift of the low fifteen bits is linear
//! over the field of two elements, and so is every number of shifts: it is
//! known by what it makes of each bit alone. This file holds those tables
//! for the numbers of shifts that lead, by adding up, to 32767 and to the
//! three numbers that the proper divisors of 32767 divide, and proves with
//! them that the register is back after 32767 shifts and not after those
//! three.

use crate::noise::{lemma_lfsr_in_range, lfsr_after, lfsr_next, tap};
use vstd::prelude::*;
use vstd::relations::injective_on;
use vstd::set_lib::{
    lemma_int_range, lemma_len_subset, lemma_map_size, lemma_subset_equality, set_int_range,
};

verus! {

/// One shift of the low fifteen bits of the register.
pub open spec fn step15(v: u16) -> u16 {
    ((v << 1u16) & 0x7FFF) | (((v >> 14u16) ^ (v >> 13u16)) & 1)
}

/// `v` shifted `n` times.
pub open spec fn run15(v: u16, n: nat) -> u16
    decreases n,
{
    if n == 0 {
        v
    } else {
        step15(run15(v, (n - 1) as nat))
    }
}

/// `c` where `v` has the bit `bit`, and 0 where it has not.
pub open spec fn pick(v: u16, bit: u16, c: u16) -> u16 {
    if v & bit != 0 {
        c
    } else {
        0
    }
}

/// The linear map that makes `c0` of bit 0, `c1` of bit 1 and so on: the
/// sum of the columns at the bits of `v`.
pub open spec fn linear(
    v: u16,
    c0: u16,
    c1: u16,
    c2: u16,
    c3: u16,
    c4: u16,
    c5: u16,
    c6: u16,
    c7: u16,
    c8: u16,
    c9: u16,
    c10: u16,
    c11: u16,
    c12: u16,
    c13: u16,
    c14: u16,
) -> u16 {
    pick(v, 0x1, c0)
        ^ pick(v, 0x2, c1)
        ^ pick(v, 0x4, c2)
        ^ pick(v, 0x8, c3)
        ^ pick(v, 0x10, c4)
        ^ pick(v, 0x20, c5)
        ^ pick(v, 0x40, c6)
        ^ pick(v, 0x80, c7)
        ^ pick(v, 0x100, c8)
        ^ pick(v, 0x200, c9)
        ^ pick(v, 0x400, c10)
        ^ pick(v, 0x800, c11)
        ^ pick(v, 0x1000, c12)
        ^ pick(v, 0x2000, c13)
        ^ pick(v, 0x4000, c14)
}

/// 1 shift of the low fifteen bits, as a table: the sum, over the bits
/// of `v`, of what each bit alone becomes.
pub open spec fn shifted_1(v: u16) -> u16 {
    linear(
        v,
        0x0002, 0x0004, 0x0008, 0x0010, 0x0020,
        0x0040, 0x0080, 0x0100, 0x0200, 0x0400,
        0x0800, 0x1000, 0x2000, 0x4001, 0x0001,
    )
}

/// 2 shifts of the low fifteen bits, as a table: the sum, over the bits
/// of `v`, of what each bit alone becomes.
pub open spec fn shifted_2(v: u16) -> u16 {
    linear(
        v,
        0x0004, 0x0008, 0x0010, 0x0020, 0x0040,
        0x0080, 0x0100, 0x0200, 0x0400, 0x0800,
        0x1000, 0x2000, 0x4001, 0x0003, 0x0002,
    )
}

/// The table of 2 is the table of 1 after the table of 1.
#[verifier::rlimit(100)]
proof fn lemma_table_2(v: u16)
    by (bit_vector)
    requires
        v < 0x8000,
    ensures
        shifted_1(shifted_1(v)) == shifted_2(v),
{
}

/// 3 shifts of the low fifteen bits, as a table: the sum, over the bits
/// of `v`, of what each bit alone becomes.
pub open spec fn shifted_3(v: u16) -> u16 {
    linear(
        v,
        0x0008, 0x0010, 0x0020, 0x0040, 0x0080,
        0x0100, 0x0200, 0x0400, 0x0800, 0x1000,
        0x2000, 0x4001, 0x0003, 0x0006, 0x0004,
    )
}

/// The table of 3 is the table of 2 after the table of 1.
#[verifier::rlimit(100)]
proof fn lemma_table_3(v: u16)
    by (bit_vector)
    requires
        v < 0x8000,
    ensures
        shifted_2(shifted_1(v)) == shifted_3(v),
{
}

/// 4 shifts of the low fifteen bits, as a table: the sum, over the bits
/// of `v`, of what each bit alone becomes.
pub open spec fn shifted_4(v: u16) -> u16 {
    linear(
        v,
        0x0010, 0x0020, 0x0040, 0x0080, 0x0100,
        0x0200, 0x0400, 0x0800, 0x1000, 0x2000,
        0x4001, 0x0003, 0x0006, 0x000C, 0x0008,
    )
}

/// The table of 4 is the table of 2 after the table of 2.
#[verifier::rlimit(100)]
proof fn lemma_table_4(v: u16)
    by (bit_vector)
    requires
        v < 0x8000,
    ensures
        shifted_2(shifted_2(v)) == shifted_4(v),
{
}

/// 7 shifts of the low fifteen bits, as a table: the sum, over the bits
/// of `v`, of what each bit alone becomes.
pub open spec fn shifted_7(v: u16) -> u16 {
    linear(
        v,
        0x0080, 0x0100, 0x0200, 0x0400, 0x0800,
        0x1000, 0x2000, 0x4001, 0x0003, 0x0006,
        0x000C, 0x0018, 0x0030, 0x0060, 0x0040,
    )
}

/// The table of 7 is the table of 4 after the table of 3.
#[verifier::rlimit(100)]
proof fn lemma_table_7(v: u16)
    by (bit_vector)
    requires
        v < 0x8000,
    ensures
        shifted_4(shifted_3(v)) == shifted_7(v),
{
}

/// 8 shifts of the low fifteen bits, as a table: the sum, over the bits
/// of `v`, of what each bit alone becomes.
pub open spec fn shifted_8(v: u16) -> u16 {
    linear(
        v,
        0x0100, 0x0200, 0x0400, 0x0800, 0x1000,
        0x2000, 0x4001, 0x0003, 0x0006, 0x000C,
        0x0018, 0x0030, 0x0060, 0x00C0, 0x0080,
    )
}

/// The table of 8 is the table of 4 after the table of 4.
#[verifier::rlimit(100)]
proof fn lemma_table_8(v: u16)
    by (bit_vector)
    requires
        v < 0x8000,
    ensures
        shifted_4(shifted_4(v)) == shifted_8(v),
{
}

/// 9 shifts of the low fifteen bits, as a table: the sum, over the bits
/// of `v`, of what each bit alone becomes.
pub open spec fn shifted_9(v: u16) -> u16 {
    linear(
        v,
        0x0200, 0x0400, 0x0800, 0x1000, 0x2000,
        0x4001, 0x0003, 0x0006, 0x000C, 0x0018,
        0x0030, 0x0060, 0x00C0, 0x0180, 0x0100,
    )
}

/// The table of 9 is the table of 8 after the table of 1.
#[verifier::rlimit(100)]
proof fn lemma_table_9(v: u16)
    by (bit_vector)
    requires
        v < 0x8000,
    ensures
        shifted_8(shifted_1(v)) == shifted_9(v),
{
}

/// 15 shifts of the low fifteen bits, as a table: the sum, over the bits
/// of `v`, of what each bit alone becomes.
pub open spec fn shifted_15(v: u16) -> u16 {
    linear(
        v,
        0x0003, 0x0006, 0x000C, 0x0018, 0x0030,
        0x0060, 0x00C0, 0x0180, 0x0300, 0x0600,
        0x0C00, 0x1800, 0x3000, 0x6001, 0x4001,
    )
}

/// The table of 15 is the table of 8 after the table of 7.
#[verifier::rlimit(100)]
proof fn lemma_table_15(v: u16)
    by (bit_vector)
    requires
        v < 0x8000,
    ensures
        shifted_8(shifted_7(v)) == shifted_15(v),
{
}

/// 16 shifts of the low fifteen bits, as a table: the sum, over the bits
/// of `v`, of what each bit alone becomes.
pub open spec fn shifted_16(v: u16) -> u16 {
    linear(
        v,
        0x0006, 0x000C, 0x0018, 0x0030, 0x0060,
        0x00C0, 0x0180, 0x0300, 0x0600, 0x0C00,
        0x1800, 0x3000, 0x6001, 0x4002, 0x0003,
    )
}

/// The table of 16 is the table of 8 after the table of 8.
#[verifier::rlimit(100)]
proof fn lemma_table_16(v: u16)
    by (bit_vector)
    requires
        v < 0x8000,
    ensures
        shifted_8(shifted_8(v)) == shifted_16(v),
{
}

/// 25 shifts of the low fifteen bits, as a table: the sum, over the bits
/// of `v`, of what each bit alone becomes.
pub open spec fn shifted_25(v: u16) -> u16 {
    linear(
        v,
        0x0C00, 0x1800, 0x3000, 0x6001, 0x4002,
        0x0005, 0x000A, 0x0014, 0x0028, 0x0050,
        0x00A0, 0x0140, 0x0280, 0x0500, 0x0600,
    )
}

/// The table of 25 is the table of 16 after the table of 9.
#[verifier::rlimit(100)]
proof fn lemma_table_25(v: u16)
    by (bit_vector)
    requires
        v < 0x8000,
    ensures
        shifted_16(shifted_9(v)) == shifted_25(v),
{
}

/// 31 shifts of the low fifteen bits, as a table: the sum, over the bits
/// of `v`, of what each bit alone becomes.
pub open spec fn shifted_31(v: u16) -> u16 {
    linear(
        v,
        0x000A, 0x0014, 0x0028, 0x0050, 0x00A0,
        0x0140, 0x0280, 0x0500, 0x0A00, 0x1400,
        0x2800, 0x5001, 0x2003, 0x4007, 0x0005,
    )
}

/// The table of 31 is the table of 16 after the table of 15.
#[verifier::rlimit(100)]
proof fn lemma_table_31(v: u16)
    by (bit_vector)
    requires
        v < 0x8000,
    ensures
        shifted_16(shifted_15(v)) == shifted_31(v),
{
}

/// 32 shifts of the low fifteen bits, as a table: the sum, over the bits
/// of `v`, of what each bit alone becomes.
pub open spec fn shifted_32(v: u16) -> u16 {
    linear(
        v,
        0x0014, 0x0028, 0x0050, 0x00A0, 0x0140,
        0x0280, 0x0500, 0x0A00, 0x1400, 0x2800,
        0x5001, 0x2003, 0x4007, 0x000F, 0x000A,
    )
}

/// The table of 32 is the table of 16 after the table of 16.
#[verifier::rlimit(100)]
proof fn lemma_table_32(v: u16)
    by (bit_vector)
    requires
        v < 0x8000,
    ensures
        shifted_16(shifted_16(v)) == shifted_32(v),
{
}

/// 33 shifts of the low fifteen bits, as a table: the sum, over the bits
/// of `v`, of what each bit alone becomes.
pub open spec fn shifted_33(v: u16) -> u16 {
    linear(
        v,
        0x0028, 0x0050, 0x00A0, 0x0140, 0x0280,
        0x0500, 0x0A00, 0x1400, 0x2800, 0x5001,
        0x2003, 0x4007, 0x000F, 0x001E, 0x0014,
    )
}

/// The table of 33 is the table of 32 after the table of 1.
#[verifier::rlimit(100)]
proof fn lemma_table_33(v: u16)
    by (bit_vector)
    requires
        v < 0x8000,
    ensures
        shifted_32(shifted_1(v)) == shifted_33(v),
{
}

/// 63 shifts of the low fifteen bits, as a table: the sum, over the bits
/// of `v`, of what each bit alone becomes.
pub open spec fn shifted_63(v: u16) -> u16 {
    linear(
        v,
        0x0088, 0x0110, 0x0220, 0x0440, 0x0880,
        0x1100, 0x2200, 0x4401, 0x0803, 0x1006,
        0x200C, 0x4019, 0x0033, 0x0066, 0x0044,
    )
}

/// The table of 63 is the table of 32 after the table of 31.
#[verifier::rlimit(100)]
proof fn lemma_table_63(v: u16)
    by (bit_vector)
    requires
        v < 0x8000,
    ensures
        shifted_32(shifted_31(v)) == shifted_63(v),
{
}

/// 64 shifts of the low fifteen bits, as a table: the sum, over the bits
/// of `v`, of what each bit alone becomes.
pub open spec fn shifted_64(v: u16) -> u16 {
    linear(
        v,
        0x0110, 0x0220, 0x0440, 0x0880, 0x1100,
        0x2200, 0x4401, 0x0803, 0x1006, 0x200C,
        0x4019, 0x0033, 0x0066, 0x00CC, 0x0088,
    )
}

/// The table of 64 is the table of 32 after the table of 32.
#[verifier::rlimit(100)]
proof fn lemma_table_64(v: u16)
    by (bit_vector)
    requires
        v < 0x8000,
    ensures
        shifted_32(shifted_32(v)) == shifted_64(v),
{
}

/// 73 shifts of the low fifteen bits, as a table: the sum, over the bits
/// of `v`, of what each bit alone becomes.
pub open spec fn shifted_73(v: u16) -> u16 {
    linear(
        v,
        0x200C, 0x4019, 0x0033, 0x0066, 0x00CC,
        0x0198, 0x0330, 0x0660, 0x0CC0, 0x1980,
        0x3300, 0x6601, 0x4C02, 0x1805, 0x1006,
    )
}

/// The table of 73 is the table of 64 after the table of 9.
#[verifier::rlimit(100)]
proof fn lemma_table_73(v: u16)
    by (bit_vector)
    requires
        v < 0x8000,
    ensures
        shifted_64(shifted_9(v)) == shifted_73(v),
{
}

/// 89 shifts of the low fifteen bits, as a table: the sum, over the bits
/// of `v`, of what each bit alone becomes.
pub open spec fn shifted_89(v: u16) -> u16 {
    linear(
        v,
        0x402A, 0x0055, 0x00AA, 0x0154, 0x02A8,
        0x0550, 0x0AA0, 0x1540, 0x2A80, 0x5501,
        0x2A03, 0x5407, 0x280F, 0x501F, 0x6015,
    )
}

/// The table of 89 is the table of 64 after the table of 25.
#[verifier::rlimit(100)]
proof fn lemma_table_89(v: u16)
    by (bit_vector)
    requires
        v < 0x8000,
    ensures
        shifted_64(shifted_25(v)) == shifted_89(v),
{
}

/// 127 shifts of the low fifteen bits, as a table: the sum, over the bits
/// of `v`, of what each bit alone becomes.
pub open spec fn shifted_127(v: u16) -> u16 {
    linear(
        v,
        0x0083, 0x0106, 0x020C, 0x0418, 0x0830,
        0x1060, 0x20C0, 0x4181, 0x0303, 0x0606,
        0x0C0C, 0x1818, 0x3030, 0x6061, 0x4041,
    )
}

/// The table of 127 is the table of 64 after the table of 63.
#[verifier::rlimit(100)]
proof fn lemma_table_127(v: u16)
    by (bit_vector)
    requires
        v < 0x8000,
    ensures
        shifted_64(shifted_63(v)) == shifted_127(v),
{
}

/// 128 shifts of the low fifteen bits, as a table: the sum, over the bits
/// of `v`, of what each bit alone becomes.
pub open spec fn shifted_128(v: u16) -> u16 {
    linear(
        v,
        0x0106, 0x020C, 0x0418, 0x0830, 0x1060,
        0x20C0, 0x4181, 0x0303, 0x0606, 0x0C0C,
        0x1818, 0x3030, 0x6061, 0x40C2, 0x0083,
    )
}

/// The table of 128 is the table of 64 after the table of 64.
#[verifier::rlimit(100)]
proof fn lemma_table_128(v: u16)
    by (bit_vector)
    requires
        v < 0x8000,
    ensures
        shifted_64(shifted_64(v)) == shifted_128(v),
{
}

/// 217 shifts of the low fifteen bits, as a table: the sum, over the bits
/// of `v`, of what each bit alone becomes.
pub open spec fn shifted_217(v: u16) -> u16 {
    linear(
        v,
        0x2A7F, 0x54FF, 0x29FF, 0x53FF, 0x27FF,
        0x4FFF, 0x1FFF, 0x3FFE, 0x7FFD, 0x7FFA,
        0x7FF4, 0x7FE8, 0x7FD0, 0x7FA0, 0x553F,
    )
}

/// The table of 217 is the table of 128 after the table of 89.
#[verifier::rlimit(100)]
proof fn lemma_table_217(v: u16)
    by (bit_vector)
    requires
        v < 0x8000,
    ensures
        shifted_128(shifted_89(v)) == shifted_217(v),
{
}

/// 255 shifts of the low fifteen bits, as a table: the sum, over the bits
/// of `v`, of what each bit alone becomes.
pub open spec fn shifted_255(v: u16) -> u16 {
    linear(
        v,
        0x0009, 0x0012, 0x0024, 0x0048, 0x0090,
        0x0120, 0x0240, 0x0480, 0x0900, 0x1200,
        0x2400, 0x4801, 0x1003, 0x2006, 0x4004,
    )
}

/// The table of 255 is the table of 128 after the table of 127.
#[verifier::rlimit(100)]
proof fn lemma_table_255(v: u16)
    by (bit_vector)
    requires
        v < 0x8000,
    ensures
        shifted_128(shifted_127(v)) == shifted_255(v),
{
}

/// 256 shifts of the low fifteen bits, as a table: the sum, over the bits
/// of `v`, of what each bit alone becomes.
pub open spec fn shifted_256(v: u16) -> u16 {
    linear(
        v,
        0x0012, 0x0024, 0x0048, 0x0090, 0x0120,
        0x0240, 0x0480, 0x0900, 0x1200, 0x2400,
        0x4801, 0x1003, 0x2006, 0x400D, 0x0009,
    )
}

/// The table of 256 is the table of 128 after the table of 128.
#[verifier::rlimit(100)]
proof fn lemma_table_256(v: u16)
    by (bit_vector)
    requires
        v < 0x8000,
    ensures
        shifted_128(shifted_128(v)) == shifted_256(v),
{
}

/// 511 shifts of the low fifteen bits, as a table: the sum, over the bits
/// of `v`, of what each bit alone becomes.
pub open spec fn shifted_511(v: u16) -> u16 {
    linear(
        v,
        0x0082, 0x0104, 0x0208, 0x0410, 0x0820,
        0x1040, 0x2080, 0x4101, 0x0203, 0x0406,
        0x080C, 0x1018, 0x2030, 0x4061, 0x0041,
    )
}

/// The table of 511 is the table of 256 after the table of 255.
#[verifier::rlimit(100)]
proof fn lemma_table_511(v: u16)
    by (bit_vector)
    requires
        v < 0x8000,
    ensures
        shifted_256(shifted_255(v)) == shifted_511(v),
{
}

/// 512 shifts of the low fifteen bits, as a table: the sum, over the bits
/// of `v`, of what each bit alone becomes.
pub open spec fn shifted_512(v: u16) -> u16 {
    linear(
        v,
        0x0104, 0x0208, 0x0410, 0x0820, 0x1040,
        0x2080, 0x4101, 0x0203, 0x0406, 0x080C,
        0x1018, 0x2030, 0x4061, 0x00C3, 0x0082,
    )
}

/// The table of 512 is the table of 256 after the table of 256.
#[verifier::rlimit(100)]
proof fn lemma_table_512(v: u16)
    by (bit_vector)
    requires
        v < 0x8000,
    ensures
        shifted_256(shifted_256(v)) == shifted_512(v),
{
}

/// 585 shifts of the low fifteen bits, as a table: the sum, over the bits
/// of `v`, of what each bit alone becomes.
pub open spec fn shifted_585(v: u16) -> u16 {
    linear(
        v,
        0x0CF3, 0x19E6, 0x33CC, 0x6799, 0x4F32,
        0x1E65, 0x3CCA, 0x7995, 0x732A, 0x6654,
        0x4CA8, 0x1951, 0x32A2, 0x6545, 0x4679,
    )
}

/// The table of 585 is the table of 512 after the table of 73.
#[verifier::rlimit(100)]
proof fn lemma_table_585(v: u16)
    by (bit_vector)
    requires
        v < 0x8000,
    ensures
        shifted_512(shifted_73(v)) == shifted_585(v),
{
}

/// 1023 shifts of the low fifteen bits, as a table: the sum, over the bits
/// of `v`, of what each bit alone becomes.
pub open spec fn shifted_1023(v: u16) -> u16 {
    linear(
        v,
        0x000B, 0x0016, 0x002C, 0x0058, 0x00B0,
        0x0160, 0x02C0, 0x0580, 0x0B00, 0x1600,
        0x2C00, 0x5801, 0x3003, 0x6007, 0x4005,
    )
}

/// The table of 1023 is the table of 512 after the table of 511.
#[verifier::rlimit(100)]
proof fn lemma_table_1023(v: u16)
    by (bit_vector)
    requires
        v < 0x8000,
    ensures
        shifted_512(shifted_511(v)) == shifted_1023(v),
{
}

/// 1024 shifts of the low fifteen bits, as a table: the sum, over the bits
/// of `v`, of what each bit alone becomes.
pub open spec fn shifted_1024(v: u16) -> u16 {
    linear(
        v,
        0x0016, 0x002C, 0x0058, 0x00B0, 0x0160,
        0x02C0, 0x0580, 0x0B00, 0x1600, 0x2C00,
        0x5801, 0x3003, 0x6007, 0x400E, 0x000B,
    )
}

/// The table of 1024 is the table of 512 after the table of 512.
#[verifier::rlimit(100)]
proof fn lemma_table_1024(v: u16)
    by (bit_vector)
    requires
        v < 0x8000,
    ensures
        shifted_512(shifted_512(v)) == shifted_1024(v),
{
}

/// 1057 shifts of the low fifteen bits, as a table: the sum, over the bits
/// of `v`, of what each bit alone becomes.
pub open spec fn shifted_1057(v: u16) -> u16 {
    linear(
        v,
        0x0270, 0x04E0, 0x09C0, 0x1380, 0x2700,
        0x4E01, 0x1C03, 0x3806, 0x700D, 0x601A,
        0x4034, 0x0069, 0x00D2, 0x01A4, 0x0138,
    )
}

/// The table of 1057 is the table of 1024 after the table of 33.
#[verifier::rlimit(100)]
proof fn lemma_table_1057(v: u16)
    by (bit_vector)
    requires
        v < 0x8000,
    ensures
        shifted_1024(shifted_33(v)) == shifted_1057(v),
{
}

/// 2047 shifts of the low fifteen bits, as a table: the sum, over the bits
/// of `v`, of what each bit alone becomes.
pub open spec fn shifted_2047(v: u16) -> u16 {
    linear(
        v,
        0x008A, 0x0114, 0x0228, 0x0450, 0x08A0,
        0x1140, 0x2280, 0x4501, 0x0A03, 0x1406,
        0x280C, 0x5019, 0x2033, 0x4067, 0x0045,
    )
}

/// The table of 2047 is the table of 1024 after the table of 1023.
#[verifier::rlimit(100)]
proof fn lemma_table_2047(v: u16)
    by (bit_vector)
    requires
        v < 0x8000,
    ensures
        shifted_1024(shifted_1023(v)) == shifted_2047(v),
{
}

/// 2048 shifts of the low fifteen bits, as a table: the sum, over the bits
/// of `v`, of what each bit alone becomes.
pub open spec fn shifted_2048(v: u16) -> u16 {
    linear(
        v,
        0x0114, 0x0228, 0x0450, 0x08A0, 0x1140,
        0x2280, 0x4501, 0x0A03, 0x1406, 0x280C,
        0x5019, 0x2033, 0x4067, 0x00CF, 0x008A,
    )
}

/// The table of 2048 is the table of 1024 after the table of 1024.
#[verifier::rlimit(100)]
proof fn lemma_table_2048(v: u16)
    by (bit_vector)
    requires
        v < 0x8000,
    ensures
        shifted_1024(shifted_1024(v)) == shifted_2048(v),
{
}

/// 4095 shifts of the low fifteen bits, as a table: the sum, over the bits
/// of `v`, of what each bit alone becomes.
pub open spec fn shifted_4095(v: u16) -> u16 {
    linear(
        v,
        0x008B, 0x0116, 0x022C, 0x0458, 0x08B0,
        0x1160, 0x22C0, 0x4581, 0x0B03, 0x1606,
        0x2C0C, 0x5819, 0x3033, 0x6067, 0x4045,
    )
}

/// The table of 4095 is the table of 2048 after the table of 2047.
#[verifier::rlimit(100)]
proof fn lemma_table_4095(v: u16)
    by (bit_vector)
    requires
        v < 0x8000,
    ensures
        shifted_2048(shifted_2047(v)) == shifted_4095(v),
{
}

/// 4096 shifts of the low fifteen bits, as a table: the sum, over the bits
/// of `v`, of what each bit alone becomes.
pub open spec fn shifted_4096(v: u16) -> u16 {
    linear(
        v,
        0x0116, 0x022C, 0x0458, 0x08B0, 0x1160,
        0x22C0, 0x4581, 0x0B03, 0x1606, 0x2C0C,
        0x5819, 0x3033, 0x6067, 0x40CE, 0x008B,
    )
}

/// The table of 4096 is the table of 2048 after the table of 2048.
#[verifier::rlimit(100)]
proof fn lemma_table_4096(v: u16)
    by (bit_vector)
    requires
        v < 0x8000,
    ensures
        shifted_2048(shifted_2048(v)) == shifted_4096(v),
{
}

/// 4681 shifts of the low fifteen bits, as a table: the sum, over the bits
/// of `v`, of what each bit alone becomes.
pub open spec fn shifted_4681(v: u16) -> u16 {
    linear(
        v,
        0x1632, 0x2C64, 0x58C9, 0x3193, 0x6327,
        0x464E, 0x0C9D, 0x193A, 0x3274, 0x64E9,
        0x49D2, 0x13A5, 0x274A, 0x4E95, 0x0B19,
    )
}

/// The table of 4681 is the table of 4096 after the table of 585.
#[verifier::rlimit(100)]
proof fn lemma_table_4681(v: u16)
    by (bit_vector)
    requires
        v < 0x8000,
    ensures
        shifted_4096(shifted_585(v)) == shifted_4681(v),
{
}

/// 8191 shifts of the low fifteen bits, as a table: the sum, over the bits
/// of `v`, of what each bit alone becomes.
pub open spec fn shifted_8191(v: u16) -> u16 {
    linear(
        v,
        0x0089, 0x0112, 0x0224, 0x0448, 0x0890,
        0x1120, 0x2240, 0x4481, 0x0903, 0x1206,
        0x240C, 0x4819, 0x1033, 0x2066, 0x4044,
    )
}

/// The table of 8191 is the table of 4096 after the table of 4095.
#[verifier::rlimit(100)]
proof fn lemma_table_8191(v: u16)
    by (bit_vector)
    requires
        v < 0x8000,
    ensures
        shifted_4096(shifted_4095(v)) == shifted_8191(v),
{
}

/// 8192 shifts of the low fifteen bits, as a table: the sum, over the bits
/// of `v`, of what each bit alone becomes.
pub open spec fn shifted_8192(v: u16) -> u16 {
    linear(
        v,
        0x0112, 0x0224, 0x0448, 0x0890, 0x1120,
        0x2240, 0x4481, 0x0903, 0x1206, 0x240C,
        0x4819, 0x1033, 0x2066, 0x40CD, 0x0089,
    )
}

/// The table of 8192 is the table of 4096 after the table of 4096.
#[verifier::rlimit(100)]
proof fn lemma_table_8192(v: u16)
    by (bit_vector)
    requires
        v < 0x8000,
    ensures
        shifted_4096(shifted_4096(v)) == shifted_8192(v),
{
}

/// 16383 shifts of the low fifteen bits, as a table: the sum, over the bits
/// of `v`, of what each bit alone becomes.
pub open spec fn shifted_16383(v: u16) -> u16 {
    linear(
        v,
        0x0081, 0x0102, 0x0204, 0x0408, 0x0810,
        0x1020, 0x2040, 0x4081, 0x0103, 0x0206,
        0x040C, 0x0818, 0x1030, 0x2060, 0x4040,
    )
}

/// The table of 16383 is the table of 8192 after the table of 8191.
#[verifier::rlimit(100)]
proof fn lemma_table_16383(v: u16)
    by (bit_vector)
    requires
        v < 0x8000,
    ensures
        shifted_8192(shifted_8191(v)) == shifted_16383(v),
{
}

/// 16384 shifts of the low fifteen bits, as a table: the sum, over the bits
/// of `v`, of what each bit alone becomes.
pub open spec fn shifted_16384(v: u16) -> u16 {
    linear(
        v,
        0x0102, 0x0204, 0x0408, 0x0810, 0x1020,
        0x2040, 0x4081, 0x0103, 0x0206, 0x040C,
        0x0818, 0x1030, 0x2060, 0x40C1, 0x0081,
    )
}

/// The table of 16384 is the table of 8192 after the table of 8192.
#[verifier::rlimit(100)]
proof fn lemma_table_16384(v: u16)
    by (bit_vector)
    requires
        v < 0x8000,
    ensures
        shifted_8192(shifted_8192(v)) == shifted_16384(v),
{
}

/// 32767 shifts of the low fifteen bits, as a table: the sum, over the bits
/// of `v`, of what each bit alone becomes.
pub open spec fn shifted_32767(v: u16) -> u16 {
    linear(
        v,
        0x0001, 0x0002, 0x0004, 0x0008, 0x0010,
        0x0020, 0x0040, 0x0080, 0x0100, 0x0200,
        0x0400, 0x0800, 0x1000, 0x2000, 0x4000,
    )
}

/// The table of 32767 is the table of 16384 after the table of 16383.
#[verifier::rlimit(100)]
proof fn lemma_table_32767(v: u16)
    by (bit_vector)
    requires
        v < 0x8000,
    ensures
        shifted_16384(shifted_16383(v)) == shifted_32767(v),
{
}

/// What one shift does, in bits.
proof fn lemma_step_bits(v: u16)
    by (bit_vector)
    requires
        v < 0x8000,
    ensures
        step15(v) < 0x8000,
        v != 0 ==> step15(v) != 0,
        shifted_1(v) == step15(v),
        (v / 0x4000) % 2 != (v / 0x2000) % 2 ==> step15(v) == (v % 0x4000) * 2 + 1,
        (v / 0x4000) % 2 == (v / 0x2000) % 2 ==> step15(v) == (v % 0x4000) * 2,
{
}

/// The table of 32767 makes every bit of itself.
proof fn lemma_table_32767_is_identity(v: u16)
    by (bit_vector)
    requires
        v < 0x8000,
    ensures
        shifted_32767(v) == v,
{
}

/// The tables of 4681, 1057 and 217 leave nothing but 0 as it was.
#[verifier::rlimit(100)]
proof fn lemma_divisor_tables_move(v: u16)
    by (bit_vector)
    requires
        0 < v < 0x8000,
    ensures
        shifted_4681(v) != v,
        shifted_1057(v) != v,
        shifted_217(v) != v,
{
}

/// Shifts keep the low fifteen bits within fifteen bits, and keep them from
/// becoming 0.
pub proof fn lemma_run15_in_range(v: u16, n: nat)
    requires
        v < 0x8000,
    ensures
        run15(v, n) < 0x8000,
        v != 0 ==> run15(v, n) != 0,
    decreases n,
{
    if n > 0 {
        lemma_run15_in_range(v, (n - 1) as nat);
        lemma_step_bits(run15(v, (n - 1) as nat));
    }
}

/// Shifts add up.
pub proof fn lemma_run15_sum(v: u16, a: nat, b: nat)
    ensures
        run15(run15(v, a), b) == run15(v, a + b),
    decreases b,
{
    if b > 0 {
        lemma_run15_sum(v, a, (b - 1) as nat);
    }
}

/// The tables of the powers of two are what their names say.
proof fn lemma_doubling()
    ensures
        forall|v: u16| v < 0x8000 ==> #[trigger] run15(v, 1) == shifted_1(v),
        forall|v: u16| v < 0x8000 ==> #[trigger] run15(v, 2) == shifted_2(v),
        forall|v: u16| v < 0x8000 ==> #[trigger] run15(v, 4) == shifted_4(v),
        forall|v: u16| v < 0x8000 ==> #[trigger] run15(v, 8) == shifted_8(v),
        forall|v: u16| v < 0x8000 ==> #[trigger] run15(v, 16) == shifted_16(v),
        forall|v: u16| v < 0x8000 ==> #[trigger] run15(v, 32) == shifted_32(v),
        forall|v: u16| v < 0x8000 ==> #[trigger] run15(v, 64) == shifted_64(v),
        forall|v: u16| v < 0x8000 ==> #[trigger] run15(v, 128) == shifted_128(v),
        forall|v: u16| v < 0x8000 ==> #[trigger] run15(v, 256) == shifted_256(v),
        forall|v: u16| v < 0x8000 ==> #[trigger] run15(v, 512) == shifted_512(v),
        forall|v: u16| v < 0x8000 ==> #[trigger] run15(v, 1024) == shifted_1024(v),
        forall|v: u16| v < 0x8000 ==> #[trigger] run15(v, 2048) == shifted_2048(v),
        forall|v: u16| v < 0x8000 ==> #[trigger] run15(v, 4096) == shifted_4096(v),
        forall|v: u16| v < 0x8000 ==> #[trigger] run15(v, 8192) == shifted_8192(v),
        forall|v: u16| v < 0x8000 ==> #[trigger] run15(v, 16384) == shifted_16384(v),
{
    assert forall|v: u16| v < 0x8000 implies #[trigger] run15(v, 1) == shifted_1(v) by {
        lemma_step_bits(v);
        assert(run15(v, 0) == v);
    }
    assert forall|v: u16| v < 0x8000 implies #[trigger] run15(v, 2) == shifted_2(v) by {
        lemma_run15_sum(v, 1, 1);
        lemma_run15_in_range(v, 1);
        lemma_table_2(v);
    }
    assert forall|v: u16| v < 0x8000 implies #[trigger] run15(v, 4) == shifted_4(v) by {
        lemma_run15_sum(v, 2, 2);
        lemma_run15_in_range(v, 2);
        lemma_table_4(v);
    }
    assert forall|v: u16| v < 0x8000 implies #[trigger] run15(v, 8) == shifted_8(v) by {
        lemma_run15_sum(v, 4, 4);
        lemma_run15_in_range(v, 4);
        lemma_table_8(v);
    }
    assert forall|v: u16| v < 0x8000 implies #[trigger] run15(v, 16) == shifted_16(v) by {
        lemma_run15_sum(v, 8, 8);
        lemma_run15_in_range(v, 8);
        lemma_table_16(v);
    }
    assert forall|v: u16| v < 0x8000 implies #[trigger] run15(v, 32) == shifted_32(v) by {
        lemma_run15_sum(v, 16, 16);
        lemma_run15_in_range(v, 16);
        lemma_table_32(v);
    }
    assert forall|v: u16| v < 0x8000 implies #[trigger] run15(v, 64) == shifted_64(v) by {
        lemma_run15_sum(v, 32, 32);
        lemma_run15_in_range(v, 32);
        lemma_table_64(v);
    }
    assert forall|v: u16| v < 0x8000 implies #[trigger] run15(v, 128) == shifted_128(v) by {
        lemma_run15_sum(v, 64, 64);
        lemma_run15_in_range(v, 64);
        lemma_table_128(v);
    }
    assert forall|v: u16| v < 0x8000 implies #[trigger] run15(v, 256) == shifted_256(v) by {
        lemma_run15_sum(v, 128, 128);
        lemma_run15_in_range(v, 128);
        lemma_table_256(v);
    }
    assert forall|v: u16| v < 0x8000 implies #[trigger] run15(v, 512) == shifted_512(v) by {
        lemma_run15_sum(v, 256, 256);
        lemma_run15_in_range(v, 256);
        lemma_table_512(v);
    }
    assert forall|v: u16| v < 0x8000 implies #[trigger] run15(v, 1024) == shifted_1024(v) by {
        lemma_run15_sum(v, 512, 512);
        lemma_run15_in_range(v, 512);
        lemma_table_1024(v);
    }
    assert forall|v: u16| v < 0x8000 implies #[trigger] run15(v, 2048) == shifted_2048(v) by {
        lemma_run15_sum(v, 1024, 1024);
        lemma_run15_in_range(v, 1024);
        lemma_table_2048(v);
    }
    assert forall|v: u16| v < 0x8000 implies #[trigger] run15(v, 4096) == shifted_4096(v) by {
        lemma_run15_sum(v, 2048, 2048);
        lemma_run15_in_range(v, 2048);
        lemma_table_4096(v);
    }
    assert forall|v: u16| v < 0x8000 implies #[trigger] run15(v, 8192) == shifted_8192(v) by {
        lemma_run15_sum(v, 4096, 4096);
        lemma_run15_in_range(v, 4096);
        lemma_table_8192(v);
    }
    assert forall|v: u16| v < 0x8000 implies #[trigger] run15(v, 16384) == shifted_16384(v) by {
        lemma_run15_sum(v, 8192, 8192);
        lemma_run15_in_range(v, 8192);
        lemma_table_16384(v);
    }
}

/// After 32767 shifts the low fifteen bits are what they were.
pub proof fn lemma_run15_repeats(v: u16)
    requires
        v < 0x8000,
    ensures
        run15(v, 32767) == v,
{
    lemma_doubling();
    assert forall|v: u16| v < 0x8000 implies #[trigger] run15(v, 3) == shifted_3(v) by {
        lemma_run15_sum(v, 1, 2);
        lemma_run15_in_range(v, 1);
        lemma_table_3(v);
    }
    assert forall|v: u16| v < 0x8000 implies #[trigger] run15(v, 7) == shifted_7(v) by {
        lemma_run15_sum(v, 3, 4);
        lemma_run15_in_range(v, 3);
        lemma_table_7(v);
    }
    assert forall|v: u16| v < 0x8000 implies #[trigger] run15(v, 15) == shifted_15(v) by {
        lemma_run15_sum(v, 7, 8);
        lemma_run15_in_range(v, 7);
        lemma_table_15(v);
    }
    assert forall|v: u16| v < 0x8000 implies #[trigger] run15(v, 31) == shifted_31(v) by {
        lemma_run15_sum(v, 15, 16);
        lemma_run15_in_range(v, 15);
        lemma_table_31(v);
    }
    assert forall|v: u16| v < 0x8000 implies #[trigger] run15(v, 63) == shifted_63(v) by {
        lemma_run15_sum(v, 31, 32);
        lemma_run15_in_range(v, 31);
        lemma_table_63(v);
    }
    assert forall|v: u16| v < 0x8000 implies #[trigger] run15(v, 127) == shifted_127(v) by {
        lemma_run15_sum(v, 63, 64);
        lemma_run15_in_range(v, 63);
        lemma_table_127(v);
    }
    assert forall|v: u16| v < 0x8000 implies #[trigger] run15(v, 255) == shifted_255(v) by {
        lemma_run15_sum(v, 127, 128);
        lemma_run15_in_range(v, 127);
        lemma_table_255(v);
    }
    assert forall|v: u16| v < 0x8000 implies #[trigger] run15(v, 511) == shifted_511(v) by {
        lemma_run15_sum(v, 255, 256);
        lemma_run15_in_range(v, 255);
        lemma_table_511(v);
    }
    assert forall|v: u16| v < 0x8000 implies #[trigger] run15(v, 1023) == shifted_1023(v) by {
        lemma_run15_sum(v, 511, 512);
        lemma_run15_in_range(v, 511);
        lemma_table_1023(v);
    }
    assert forall|v: u16| v < 0x8000 implies #[trigger] run15(v, 2047) == shifted_2047(v) by {
        lemma_run15_sum(v, 1023, 1024);
        lemma_run15_in_range(v, 1023);
        lemma_table_2047(v);
    }
    assert forall|v: u16| v < 0x8000 implies #[trigger] run15(v, 4095) == shifted_4095(v) by {
        lemma_run15_sum(v, 2047, 2048);
        lemma_run15_in_range(v, 2047);
        lemma_table_4095(v);
    }
    assert forall|v: u16| v < 0x8000 implies #[trigger] run15(v, 8191) == shifted_8191(v) by {
        lemma_run15_sum(v, 4095, 4096);
        lemma_run15_in_range(v, 4095);
        lemma_table_8191(v);
    }
    assert forall|v: u16| v < 0x8000 implies #[trigger] run15(v, 16383) == shifted_16383(v) by {
        lemma_run15_sum(v, 8191, 8192);
        lemma_run15_in_range(v, 8191);
        lemma_table_16383(v);
    }
    assert forall|v: u16| v < 0x8000 implies #[trigger] run15(v, 32767) == shifted_32767(v) by {
        lemma_run15_sum(v, 16383, 16384);
        lemma_run15_in_range(v, 16383);
        lemma_table_32767(v);
    }
    lemma_table_32767_is_identity(v);
}

/// After 4681, 1057 or 217 shifts, which is 32767 over each of its prime
/// factors 7, 31 and 151, low fifteen bits other than 0 are not what they
/// were.
pub proof fn lemma_run15_does_not_repeat_early(v: u16)
    requires
        0 < v < 0x8000,
    ensures
        run15(v, 4681) != v,
        run15(v, 1057) != v,
        run15(v, 217) != v,
{
    lemma_doubling();
    assert forall|v: u16| v < 0x8000 implies #[trigger] run15(v, 9) == shifted_9(v) by {
        lemma_run15_sum(v, 1, 8);
        lemma_run15_in_range(v, 1);
        lemma_table_9(v);
    }
    assert forall|v: u16| v < 0x8000 implies #[trigger] run15(v, 73) == shifted_73(v) by {
        lemma_run15_sum(v, 9, 64);
        lemma_run15_in_range(v, 9);
        lemma_table_73(v);
    }
    assert forall|v: u16| v < 0x8000 implies #[trigger] run15(v, 585) == shifted_585(v) by {
        lemma_run15_sum(v, 73, 512);
        lemma_run15_in_range(v, 73);
        lemma_table_585(v);
    }
    assert forall|v: u16| v < 0x8000 implies #[trigger] run15(v, 4681) == shifted_4681(v) by {
        lemma_run15_sum(v, 585, 4096);
        lemma_run15_in_range(v, 585);
        lemma_table_4681(v);
    }
    assert forall|v: u16| v < 0x8000 implies #[trigger] run15(v, 33) == shifted_33(v) by {
        lemma_run15_sum(v, 1, 32);
        lemma_run15_in_range(v, 1);
        lemma_table_33(v);
    }
    assert forall|v: u16| v < 0x8000 implies #[trigger] run15(v, 1057) == shifted_1057(v) by {
        lemma_run15_sum(v, 33, 1024);
        lemma_run15_in_range(v, 33);
        lemma_table_1057(v);
    }
    assert forall|v: u16| v < 0x8000 implies #[trigger] run15(v, 25) == shifted_25(v) by {
        lemma_run15_sum(v, 9, 16);
        lemma_run15_in_range(v, 9);
        lemma_table_25(v);
    }
    assert forall|v: u16| v < 0x8000 implies #[trigger] run15(v, 89) == shifted_89(v) by {
        lemma_run15_sum(v, 25, 64);
        lemma_run15_in_range(v, 25);
        lemma_table_89(v);
    }
    assert forall|v: u16| v < 0x8000 implies #[trigger] run15(v, 217) == shifted_217(v) by {
        lemma_run15_sum(v, 89, 128);
        lemma_run15_in_range(v, 89);
        lemma_table_217(v);
    }
    lemma_divisor_tables_move(v);
}

/// The low fifteen bits of the register after a shift are the shift of
/// its low fifteen bits.
pub proof fn lemma_low_bits_step(state: int)
    requires
        0 <= state <= 0xFFFF,
    ensures
        lfsr_next(state, 14) % 0x8000 == step15((state % 0x8000) as u16),
        0 <= lfsr_next(state, 14) <= 0xFFFF,
{
    lemma_step_bits((state % 0x8000) as u16);
}

/// The low fifteen bits of the register after `n` shifts are its low fifteen
/// bits shifted `n` times.
pub proof fn lemma_low_bits_run(state: int, n: nat)
    requires
        0 <= state <= 0xFFFF,
    ensures
        lfsr_after(state, 14, n) % 0x8000 == run15((state % 0x8000) as u16, n),
    decreases n,
{
    if n > 0 {
        lemma_low_bits_run(state, (n - 1) as nat);
        lemma_lfsr_in_range(state, 14, (n - 1) as nat);
        lemma_low_bits_step(lfsr_after(state, 14, (n - 1) as nat));
    }
}

/// The low fifteen bits of the register after `n` and then `k` more shifts
/// are its low fifteen bits shifted `n` times and then `k` times more.
proof fn lemma_low_bits_after(state: int, n: nat, k: nat)
    requires
        0 <= state <= 0xFFFF,
    ensures
        lfsr_after(state, 14, n + k) % 0x8000 == run15(
            run15((state % 0x8000) as u16, n),
            k,
        ),
        run15((state % 0x8000) as u16, n) < 0x8000,
        state % 0x8000 != 0 ==> run15((state % 0x8000) as u16, n) != 0,
{
    let low = (state % 0x8000) as u16;
    lemma_low_bits_run(state, n + k);
    lemma_run15_sum(low, n, k);
    lemma_run15_in_range(low, n);
}

/// The bit that the register puts out is one of its low fifteen bits.
proof fn lemma_tap_is_low(a: int, b: int)
    requires
        0 <= a,
        0 <= b,
        a % 0x8000 == b % 0x8000,
    ensures
        tap(a, 14) == tap(b, 14),
{
}

/// The register that is tapped at bit 14 repeats after 32767 shifts: its
/// low fifteen bits, and with them the bit that it puts out, are then what
/// they were, from whatever state and after however many shifts it starts.
pub proof fn lemma_wide_register_repeats(state: int, n: nat)
    requires
        0 <= state <= 0xFFFF,
    ensures
        lfsr_after(state, 14, n + 32767) % 0x8000 == lfsr_after(state, 14, n) % 0x8000,
        tap(lfsr_after(state, 14, n + 32767), 14) == tap(lfsr_after(state, 14, n), 14),
{
    let v = run15((state % 0x8000) as u16, n);
    lemma_low_bits_after(state, n, 32767);
    lemma_low_bits_after(state, n, 0);
    assert(run15(v, 0) == v);
    lemma_run15_repeats(v);
    lemma_lfsr_in_range(state, 14, n);
    lemma_lfsr_in_range(state, 14, n + 32767);
    lemma_tap_is_low(lfsr_after(state, 14, n + 32767), lfsr_after(state, 14, n));
}

/// Whether `v` is back where it was after `k` shifts.
pub open spec fn is_back(v: u16, k: int) -> bool {
    0 <= k && run15(v, k as nat) == v
}

/// What is back after `a` shifts and after `b` is back after `a + b`, and
/// what is back after `a` and after `a + b` is back after `b`.
proof fn lemma_back_sum(v: u16, a: int, b: int)
    requires
        is_back(v, a),
        0 <= b,
    ensures
        is_back(v, a + b) == is_back(v, b),
{
    lemma_run15_sum(v, a as nat, b as nat);
}

/// What is back after `d` shifts is back after every multiple of `d`.
proof fn lemma_back_multiple(v: u16, d: int, m: int)
    requires
        is_back(v, d),
        0 <= m,
    ensures
        is_back(v, d * m),
    decreases m,
{
    if m == 0 {
        assert(d * m == 0) by (nonlinear_arith)
            requires
                m == 0,
        ;
        assert(run15(v, 0) == v);
    } else {
        lemma_back_multiple(v, d, m - 1);
        assert(d * m == d * (m - 1) + d && 0 <= d * (m - 1)) by (nonlinear_arith)
            requires
                0 <= d,
                1 <= m,
        ;
        lemma_back_sum(v, d * (m - 1), d);
    }
}

/// What is back after `a` shifts and after `b` is back after a number that
/// divides both: the numbers found are that divisor and what `a` and `b`
/// are of it.
proof fn lemma_back_common_divisor(v: u16, a: int, b: int) -> (r: (int, int, int))
    requires
        is_back(v, a),
        is_back(v, b),
        0 < a,
        0 < b,
    ensures
        0 < r.0,
        is_back(v, r.0),
        1 <= r.1,
        1 <= r.2,
        a == r.0 * r.1,
        b == r.0 * r.2,
    decreases b,
{
    let q = a / b;
    let m = a % b;
    vstd::arithmetic::div_mod::lemma_fundamental_div_mod(a, b);
    assert(0 <= q && (m == 0 ==> 1 <= q) && b * q == q * b) by (nonlinear_arith)
        requires
            a == b * q + m,
            0 <= m < b,
            0 < a,
    ;
    if m == 0 {
        (b, q, 1)
    } else {
        lemma_back_multiple(v, b, q);
        lemma_back_sum(v, b * q, m);
        let (g, x, y) = lemma_back_common_divisor(v, b, m);
        assert(a == g * (q * x + y) && 1 <= q * x + y) by (nonlinear_arith)
            requires
                a == b * q + m,
                b == g * x,
                m == g * y,
                0 <= q,
                1 <= x,
                1 <= y,
        ;
        (g, q * x + y, x)
    }
}

/// Where 7 divides a product and not the one factor, it divides the
/// other: were the other factor to leave `r`, the one factor would be 7
/// times a whole number, as `r` has an inverse modulo 7.
proof fn lemma_seven_divides(g: int, x: int, n: int)
    requires
        0 <= g,
        0 <= x,
        g * x == 7 * n,
        x % 7 != 0,
    ensures
        g % 7 == 0,
{
    let q = g / 7;
    let r = g % 7;
    assert(g == 7 * q + r);
    if r == 1 {
        assert((7 * q + 1) * x == 7 * (q * x) + 1 * x) by (nonlinear_arith);
        assert(x == 7 * (1 * (n - q * x) - 0 * x));
    }
    if r == 2 {
        assert((7 * q + 2) * x == 7 * (q * x) + 2 * x) by (nonlinear_arith);
        assert(x == 7 * (4 * (n - q * x) - 1 * x));
    }
    if r == 3 {
        assert((7 * q + 3) * x == 7 * (q * x) + 3 * x) by (nonlinear_arith);
        assert(x == 7 * (5 * (n - q * x) - 2 * x));
    }
    if r == 4 {
        assert((7 * q + 4) * x == 7 * (q * x) + 4 * x) by (nonlinear_arith);
        assert(x == 7 * (2 * (n - q * x) - 1 * x));
    }
    if r == 5 {
        assert((7 * q + 5) * x == 7 * (q * x) + 5 * x) by (nonlinear_arith);
        assert(x == 7 * (3 * (n - q * x) - 2 * x));
    }
    if r == 6 {
        assert((7 * q + 6) * x == 7 * (q * x) + 6 * x) by (nonlinear_arith);
        assert(x == 7 * (6 * (n - q * x) - 5 * x));
    }
}

/// Where 31 divides a product and not the one factor, it divides the
/// other: were the other factor to leave `r`, the one factor would be 31
/// times a whole number, as `r` has an inverse modulo 31.
proof fn lemma_thirty_one_divides(g: int, x: int, n: int)
    requires
        0 <= g,
        0 <= x,
        g * x == 31 * n,
        x % 31 != 0,
    ensures
        g % 31 == 0,
{
    let q = g / 31;
    let r = g % 31;
    assert(g == 31 * q + r);
    if r == 1 {
        assert((31 * q + 1) * x == 31 * (q * x) + 1 * x) by (nonlinear_arith);
        assert(x == 31 * (1 * (n - q * x) - 0 * x));
    }
    if r == 2 {
        assert((31 * q + 2) * x == 31 * (q * x) + 2 * x) by (nonlinear_arith);
        assert(x == 31 * (16 * (n - q * x) - 1 * x));
    }
    if r == 3 {
        assert((31 * q + 3) * x == 31 * (q * x) + 3 * x) by (nonlinear_arith);
        assert(x == 31 * (21 * (n - q * x) - 2 * x));
    }
    if r == 4 {
        assert((31 * q + 4) * x == 31 * (q * x) + 4 * x) by (nonlinear_arith);
        assert(x == 31 * (8 * (n - q * x) - 1 * x));
    }
    if r == 5 {
        assert((31 * q + 5) * x == 31 * (q * x) + 5 * x) by (nonlinear_arith);
        assert(x == 31 * (25 * (n - q * x) - 4 * x));
    }
    if r == 6 {
        assert((31 * q + 6) * x == 31 * (q * x) + 6 * x) by (nonlinear_arith);
        assert(x == 31 * (26 * (n - q * x) - 5 * x));
    }
    if r == 7 {
        assert((31 * q + 7) * x == 31 * (q * x) + 7 * x) by (nonlinear_arith);
        assert(x == 31 * (9 * (n - q * x) - 2 * x));
    }
    if r == 8 {
        assert((31 * q + 8) * x == 31 * (q * x) + 8 * x) by (nonlinear_arith);
        assert(x == 31 * (4 * (n - q * x) - 1 * x));
    }
    if r == 9 {
        assert((31 * q + 9) * x == 31 * (q * x) + 9 * x) by (nonlinear_arith);
        assert(x == 31 * (7 * (n - q * x) - 2 * x));
    }
    if r == 10 {
        assert((31 * q + 10) * x == 31 * (q * x) + 10 * x) by (nonlinear_arith);
        assert(x == 31 * (28 * (n - q * x) - 9 * x));
    }
    if r == 11 {
        assert((31 * q + 11) * x == 31 * (q * x) + 11 * x) by (nonlinear_arith);
        assert(x == 31 * (17 * (n - q * x) - 6 * x));
    }
    if r == 12 {
        assert((31 * q + 12) * x == 31 * (q * x) + 12 * x) by (nonlinear_arith);
        assert(x == 31 * (13 * (n - q * x) - 5 * x));
    }
    if r == 13 {
        assert((31 * q + 13) * x == 31 * (q * x) + 13 * x) by (nonlinear_arith);
        assert(x == 31 * (12 * (n - q * x) - 5 * x));
    }
    if r == 14 {
        assert((31 * q + 14) * x == 31 * (q * x) + 14 * x) by (nonlinear_arith);
        assert(x == 31 * (20 * (n - q * x) - 9 * x));
    }
    if r == 15 {
        assert((31 * q + 15) * x == 31 * (q * x) + 15 * x) by (nonlinear_arith);
        assert(x == 31 * (29 * (n - q * x) - 14 * x));
    }
    if r == 16 {
        assert((31 * q + 16) * x == 31 * (q * x) + 16 * x) by (nonlinear_arith);
        assert(x == 31 * (2 * (n - q * x) - 1 * x));
    }
    if r == 17 {
        assert((31 * q + 17) * x == 31 * (q * x) + 17 * x) by (nonlinear_arith);
        assert(x == 31 * (11 * (n - q * x) - 6 * x));
    }
    if r == 18 {
        assert((31 * q + 18) * x == 31 * (q * x) + 18 * x) by (nonlinear_arith);
        assert(x == 31 * (19 * (n - q * x) - 11 * x));
    }
    if r == 19 {
        assert((31 * q + 19) * x == 31 * (q * x) + 19 * x) by (nonlinear_arith);
        assert(x == 31 * (18 * (n - q * x) - 11 * x));
    }
    if r == 20 {
        assert((31 * q + 20) * x == 31 * (q * x) + 20 * x) by (nonlinear_arith);
        assert(x == 31 * (14 * (n - q * x) - 9 * x));
    }
    if r == 21 {
        assert((31 * q + 21) * x == 31 * (q * x) + 21 * x) by (nonlinear_arith);
        assert(x == 31 * (3 * (n - q * x) - 2 * x));
    }
    if r == 22 {
        assert((31 * q + 22) * x == 31 * (q * x) + 22 * x) by (nonlinear_arith);
        assert(x == 31 * (24 * (n - q * x) - 17 * x));
    }
    if r == 23 {
        assert((31 * q + 23) * x == 31 * (q * x) + 23 * x) by (nonlinear_arith);
        assert(x == 31 * (27 * (n - q * x) - 20 * x));
    }
    if r == 24 {
        assert((31 * q + 24) * x == 31 * (q * x) + 24 * x) by (nonlinear_arith);
        assert(x == 31 * (22 * (n - q * x) - 17 * x));
    }
    if r == 25 {
        assert((31 * q + 25) * x == 31 * (q * x) + 25 * x) by (nonlinear_arith);
        assert(x == 31 * (5 * (n - q * x) - 4 * x));
    }
    if r == 26 {
        assert((31 * q + 26) * x == 31 * (q * x) + 26 * x) by (nonlinear_arith);
        assert(x == 31 * (6 * (n - q * x) - 5 * x));
    }
    if r == 27 {
        assert((31 * q + 27) * x == 31 * (q * x) + 27 * x) by (nonlinear_arith);
        assert(x == 31 * (23 * (n - q * x) - 20 * x));
    }
    if r == 28 {
        assert((31 * q + 28) * x == 31 * (q * x) + 28 * x) by (nonlinear_arith);
        assert(x == 31 * (10 * (n - q * x) - 9 * x));
    }
    if r == 29 {
        assert((31 * q + 29) * x == 31 * (q * x) + 29 * x) by (nonlinear_arith);
        assert(x == 31 * (15 * (n - q * x) - 14 * x));
    }
    if r == 30 {
        assert((31 * q + 30) * x == 31 * (q * x) + 30 * x) by (nonlinear_arith);
        assert(x == 31 * (30 * (n - q * x) - 29 * x));
    }
}

/// 151 is the product of no two numbers above 1.
proof fn lemma_151_is_prime(g: int, x: int)
    requires
        1 <= g,
        2 <= x,
        g * x == 151,
    ensures
        g == 1,
{
    assert(g < 13 || x < 13) by (nonlinear_arith)
        requires
            1 <= g,
            2 <= x,
            g * x == 151,
    ;
    if g == 2 {
        assert(g * x == 2 * x) by (nonlinear_arith)
            requires
                g == 2,
        ;
    }
    if x == 2 {
        assert(g * x == g * 2) by (nonlinear_arith)
            requires
                x == 2,
        ;
    }
    if g == 3 {
        assert(g * x == 3 * x) by (nonlinear_arith)
            requires
                g == 3,
        ;
    }
    if x == 3 {
        assert(g * x == g * 3) by (nonlinear_arith)
            requires
                x == 3,
        ;
    }
    if g == 4 {
        assert(g * x == 4 * x) by (nonlinear_arith)
            requires
                g == 4,
        ;
    }
    if x == 4 {
        assert(g * x == g * 4) by (nonlinear_arith)
            requires
                x == 4,
        ;
    }
    if g == 5 {
        assert(g * x == 5 * x) by (nonlinear_arith)
            requires
                g == 5,
        ;
    }
    if x == 5 {
        assert(g * x == g * 5) by (nonlinear_arith)
            requires
                x == 5,
        ;
    }
    if g == 6 {
        assert(g * x == 6 * x) by (nonlinear_arith)
            requires
                g == 6,
        ;
    }
    if x == 6 {
        assert(g * x == g * 6) by (nonlinear_arith)
            requires
                x == 6,
        ;
    }
    if g == 7 {
        assert(g * x == 7 * x) by (nonlinear_arith)
            requires
                g == 7,
        ;
    }
    if x == 7 {
        assert(g * x == g * 7) by (nonlinear_arith)
            requires
                x == 7,
        ;
    }
    if g == 8 {
        assert(g * x == 8 * x) by (nonlinear_arith)
            requires
                g == 8,
        ;
    }
    if x == 8 {
        assert(g * x == g * 8) by (nonlinear_arith)
            requires
                x == 8,
        ;
    }
    if g == 9 {
        assert(g * x == 9 * x) by (nonlinear_arith)
            requires
                g == 9,
        ;
    }
    if x == 9 {
        assert(g * x == g * 9) by (nonlinear_arith)
            requires
                x == 9,
        ;
    }
    if g == 10 {
        assert(g * x == 10 * x) by (nonlinear_arith)
            requires
                g == 10,
        ;
    }
    if x == 10 {
        assert(g * x == g * 10) by (nonlinear_arith)
            requires
                x == 10,
        ;
    }
    if g == 11 {
        assert(g * x == 11 * x) by (nonlinear_arith)
            requires
                g == 11,
        ;
    }
    if x == 11 {
        assert(g * x == g * 11) by (nonlinear_arith)
            requires
                x == 11,
        ;
    }
    if g == 12 {
        assert(g * x == 12 * x) by (nonlinear_arith)
            requires
                g == 12,
        ;
    }
    if x == 12 {
        assert(g * x == g * 12) by (nonlinear_arith)
            requires
                x == 12,
        ;
    }
}

/// A number that divides 32767, which is 7 times 31 times 151, and is less,
/// divides 4681, 1057 or 217: the numbers found are the one that it
/// divides and what that is of it.
proof fn lemma_divisors_of_32767(g: int, x: int) -> (r: (int, int))
    requires
        1 <= g,
        2 <= x,
        g * x == 32767,
    ensures
        r.0 == 4681 || r.0 == 1057 || r.0 == 217,
        1 <= r.1,
        r.0 == g * r.1,
{
    if x % 7 == 0 {
        let z = x / 7;
        assert(g * z == 4681 && 1 <= z) by (nonlinear_arith)
            requires
                g * x == 32767,
                x == 7 * z,
                1 <= g,
        ;
        (4681, z)
    } else {
        lemma_seven_divides(g, x, 4681);
        let g1 = g / 7;
        assert(g1 * x == 4681 && 1 <= g1) by (nonlinear_arith)
            requires
                g * x == 32767,
                g == 7 * g1,
                2 <= x,
        ;
        if x % 31 == 0 {
            let z = x / 31;
            assert(g * z == 1057 && 1 <= z) by (nonlinear_arith)
                requires
                    g1 * x == 4681,
                    g == 7 * g1,
                    x == 31 * z,
                    1 <= g1,
            ;
            (1057, z)
        } else {
            lemma_thirty_one_divides(g1, x, 151);
            let g2 = g1 / 31;
            assert(g2 * x == 151 && 1 <= g2) by (nonlinear_arith)
                requires
                    g1 * x == 4681,
                    g1 == 31 * g2,
                    2 <= x,
            ;
            lemma_151_is_prime(g2, x);
            assert(g * 1 == 217);
            (217, 1)
        }
    }
}

/// Low fifteen bits other than 0 are back after 32767 shifts and after no
/// fewer: the register has no period but 32767 and its multiples.
pub proof fn lemma_run15_least_period(v: u16, k: int)
    requires
        0 < v < 0x8000,
        0 < k < 32767,
    ensures
        run15(v, k as nat) != v,
{
    if is_back(v, k) {
        lemma_run15_repeats(v);
        let (g, x, y) = lemma_back_common_divisor(v, 32767, k);
        assert(2 <= x) by (nonlinear_arith)
            requires
                32767 == g * x,
                k == g * y,
                k < 32767,
                1 <= x,
                1 <= y,
                0 < g,
        ;
        let (q, z) = lemma_divisors_of_32767(g, x);
        lemma_back_multiple(v, g, z);
        lemma_run15_does_not_repeat_early(v);
    }
}

/// The register that is tapped at bit 14 has a least period of 32767
/// shifts: low fifteen bits other than 0 are never what they were after
/// more than none and fewer than 32767 shifts.
pub proof fn lemma_wide_register_least_period(state: int, n: nat, k: nat)
    requires
        0 <= state <= 0xFFFF,
        state % 0x8000 != 0,
        0 < k < 32767,
    ensures
        lfsr_after(state, 14, n + k) % 0x8000 != lfsr_after(state, 14, n) % 0x8000,
{
    let v = run15((state % 0x8000) as u16, n);
    lemma_low_bits_after(state, n, 0);
    assert(run15(v, 0) == v);
    lemma_low_bits_after(state, n, k);
    lemma_run15_least_period(v, k as int);
}

/// The low fifteen bits after `i` shifts, as a number; what `i` below 0
/// stands for is of no account.
pub open spec fn low_bits_at(v: u16, i: int) -> int {
    run15(v, i as nat) as int
}

/// Those of the first `n` shifts of `v` that put out a 1: the shifts before
/// which bit 14 is set.
pub open spec fn high_shifts(v: u16, n: int) -> Set<int> {
    Set::new(|i: int| 0 <= i < n && low_bits_at(v, i) >= 0x4000)
}

/// In the course of 32767 shifts the low fifteen bits, where they are not
/// 0, are never twice the same.
proof fn lemma_run15_never_twice(v: u16, i: int, j: int)
    requires
        0 < v < 0x8000,
        0 <= i < j < 32767,
    ensures
        low_bits_at(v, i) != low_bits_at(v, j),
{
    lemma_run15_in_range(v, i as nat);
    lemma_run15_sum(v, i as nat, (j - i) as nat);
    lemma_run15_least_period(run15(v, i as nat), j - i);
}

/// In the course of 32767 shifts the low fifteen bits, where they are not
/// 0, take every value but 0.
proof fn lemma_run15_visits_all(v: u16)
    requires
        0 < v < 0x8000,
    ensures
        set_int_range(0, 32767).map(|i: int| low_bits_at(v, i)) == set_int_range(1, 32768),
        injective_on(|i: int| low_bits_at(v, i), set_int_range(0, 32767)),
{
    let f = |i: int| low_bits_at(v, i);
    let shifts = set_int_range(0, 32767);
    let values = set_int_range(1, 32768);
    lemma_int_range(0, 32767);
    lemma_int_range(1, 32768);
    assert forall|i: int, j: int|
        shifts.contains(i) && shifts.contains(j) && #[trigger] f(i) == #[trigger] f(
            j,
        ) implies i == j by {
        if i < j {
            lemma_run15_never_twice(v, i, j);
        } else if j < i {
            lemma_run15_never_twice(v, j, i);
        }
    }
    let seen = shifts.map(f);
    lemma_map_size(shifts, seen, f);
    assert forall|x: int| seen.contains(x) implies values.contains(x) by {
        let i = choose|i: int| shifts.contains(i) && x == f(i);
        lemma_run15_in_range(v, i as nat);
    }
    lemma_subset_equality(seen, values);
}

/// Of the 32767 shifts that make a period of the register, 16384 put out a
/// 1 and 16383 a 0, wherever in the period the count begins.
pub proof fn lemma_run15_balance(v: u16)
    requires
        0 < v < 0x8000,
    ensures
        high_shifts(v, 32767).finite(),
        high_shifts(v, 32767).len() == 16384,
{
    let f = |i: int| low_bits_at(v, i);
    let shifts = set_int_range(0, 32767);
    let high = high_shifts(v, 32767);
    let top = set_int_range(0x4000, 0x8000);
    lemma_run15_visits_all(v);
    lemma_int_range(0, 32767);
    lemma_int_range(0x4000, 0x8000);
    assert(high.subset_of(shifts));
    lemma_len_subset(high, shifts);
    assert(injective_on(f, high));
    let seen = high.map(f);
    assert forall|x: int| seen.contains(x) implies top.contains(x) by {
        let i = choose|i: int| high.contains(i) && x == f(i);
        lemma_run15_in_range(v, i as nat);
    }
    assert forall|x: int| top.contains(x) implies seen.contains(x) by {
        assert(set_int_range(1, 32768).contains(x));
        assert(shifts.map(f).contains(x));
        let i = choose|i: int| shifts.contains(i) && x == f(i);
        assert(high.contains(i));
    }
    assert(seen =~= top);
    lemma_map_size(high, top, f);
}

/// Of any 32767 shifts in a row the register that is tapped at bit 14 puts
/// out a 1 in 16384 and a 0 in 16383, unless its low fifteen bits are 0.
pub proof fn lemma_wide_register_balance(state: int, n: nat)
    requires
        0 <= state <= 0xFFFF,
        state % 0x8000 != 0,
    ensures
        Set::new(
            |i: int| 0 <= i < 32767 && tap(lfsr_after(state, 14, n + i as nat), 14) == 1,
        ).finite(),
        Set::new(
            |i: int| 0 <= i < 32767 && tap(lfsr_after(state, 14, n + i as nat), 14) == 1,
        ).len() == 16384,
{
    let v = run15((state % 0x8000) as u16, n);
    let ones = Set::new(
        |i: int| 0 <= i < 32767 && tap(lfsr_after(state, 14, n + i as nat), 14) == 1,
    );
    lemma_low_bits_after(state, n, 0);
    lemma_run15_balance(v);
    assert forall|i: int| ones.contains(i) == high_shifts(v, 32767).contains(i) by {
        if 0 <= i < 32767 {
            lemma_low_bits_after(state, n, i as nat);
            lemma_lfsr_in_range(state, 14, n + i as nat);
        }
    }
    assert(ones =~= high_shifts(v, 32767));
}

} // verus!
