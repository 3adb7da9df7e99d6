use vstd::prelude::*;

verus! {

/// Sign flag.
pub const SF: u8 = 0x80;
/// Zero flag.
pub const ZF: u8 = 0x40;
/// Undocumented copy of bit 5 of a result.
pub const YF: u8 = 0x20;
/// Half carry flag.
pub const HF: u8 = 0x10;
/// Undocumented copy of bit 3 of a result.
pub const XF: u8 = 0x08;
/// Parity / overflow flag.
pub const PF: u8 = 0x04;
/// Add / subtract flag.
pub const NF: u8 = 0x02;
/// Carry flag.
pub const CF: u8 = 0x01;

/// Bit 1 of `v`.
pub open spec fn bit1(v: int) -> bool {
    (v / 2) % 2 == 1
}

/// Bit 3 of `v`.
pub open spec fn bit3(v: int) -> bool {
    (v / 8) % 2 == 1
}

/// Bit 4 of `v`.
pub open spec fn bit4(v: int) -> bool {
    (v / 16) % 2 == 1
}

/// Bit 5 of `v`.
pub open spec fn bit5(v: int) -> bool {
    (v / 32) % 2 == 1
}

/// Bit 11 of `v`.
pub open spec fn bit11(v: int) -> bool {
    (v / 2048) % 2 == 1
}

/// Bit 13 of `v`.
pub open spec fn bit13(v: int) -> bool {
    (v / 8192) % 2 == 1
}

/// The eight flags of the Z80 flag register, from bit 7 down to bit 0.
pub struct Flags {
    pub s: bool,
    pub z: bool,
    pub y: bool,
    pub h: bool,
    pub x: bool,
    pub p: bool,
    pub n: bool,
    pub c: bool,
}

pub open spec fn b2i(b: bool) -> int {
    if b { 1 } else { 0 }
}

/// The flag byte holding the given flags.
#[verifier::opaque]
pub open spec fn pack(fl: Flags) -> u8 {
    (128 * b2i(fl.s) + 64 * b2i(fl.z) + 32 * b2i(fl.y) + 16 * b2i(fl.h) + 8 * b2i(fl.x) + 4 * b2i(fl.p)
        + 2 * b2i(fl.n) + b2i(fl.c)) as u8
}

/// The flags held in the flag byte `f`.
#[verifier::opaque]
pub open spec fn unpack(f: u8) -> Flags {
    Flags {
        s: (f / 128) % 2 == 1,
        z: (f / 64) % 2 == 1,
        y: (f / 32) % 2 == 1,
        h: (f / 16) % 2 == 1,
        x: (f / 8) % 2 == 1,
        p: (f / 4) % 2 == 1,
        n: (f / 2) % 2 == 1,
        c: f % 2 == 1,
    }
}

/// Packing the flags of a byte gives the byte back.
pub proof fn lemma_pack_unpack(f: u8)
    ensures
        pack(unpack(f)) == f,
{
    reveal(pack);
    reveal(unpack);
    assert(f == (128 * ((f / 128) % 2) + 64 * ((f / 64) % 2) + 32 * ((f / 32) % 2) + 16 * ((f / 16) % 2)
        + 8 * ((f / 8) % 2) + 4 * ((f / 4) % 2) + 2 * ((f / 2) % 2) + (f % 2))) by (bit_vector);
}

/// Unpacking a packed flag set gives the flags back.
pub broadcast proof fn lemma_unpack_pack(fl: Flags)
    ensures
        #[trigger] unpack(pack(fl)) == fl,
{
    reveal(pack);
    reveal(unpack);
}

/// Setting H and N in a flag byte with `|` gives the byte of the same flags with H and N set.
pub proof fn lemma_set_h_n(f: u8)
    ensures
        f | 0x12 == pack(Flags { h: true, n: true, ..unpack(f) }),
{
    reveal(pack);
    reveal(unpack);
    assert(f | 0x12 == (128 * ((f / 128) % 2) + 64 * ((f / 64) % 2) + 32 * ((f / 32) % 2) + 16
        + 8 * ((f / 8) % 2) + 4 * ((f / 4) % 2) + 2 + (f % 2))) by (bit_vector);
}

/// 2 to the power `k`, for `k` in 0..8.
pub open spec fn pow2_of(k: int) -> int {
    if k == 0 { 1 } else if k == 1 { 2 } else if k == 2 { 4 } else if k == 3 { 8 }
    else if k == 4 { 16 } else if k == 5 { 32 } else if k == 6 { 64 } else { 128 }
}

/// Bit `k` of `b` read with a shift and a mask is the same bit read with a division.
pub proof fn lemma_shift_bit(b: u8, k: u8)
    requires
        k < 8,
    ensures
        ((b >> k) & 1 != 0) == ((b as int / pow2_of(k as int)) % 2 == 1),
{
    if k == 0 { assert(((b >> 0u8) & 1 != 0) == ((b / 1) % 2 == 1)) by (bit_vector); }
    else if k == 1 { assert(((b >> 1u8) & 1 != 0) == ((b / 2) % 2 == 1)) by (bit_vector); }
    else if k == 2 { assert(((b >> 2u8) & 1 != 0) == ((b / 4) % 2 == 1)) by (bit_vector); }
    else if k == 3 { assert(((b >> 3u8) & 1 != 0) == ((b / 8) % 2 == 1)) by (bit_vector); }
    else if k == 4 { assert(((b >> 4u8) & 1 != 0) == ((b / 16) % 2 == 1)) by (bit_vector); }
    else if k == 5 { assert(((b >> 5u8) & 1 != 0) == ((b / 32) % 2 == 1)) by (bit_vector); }
    else if k == 6 { assert(((b >> 6u8) & 1 != 0) == ((b / 64) % 2 == 1)) by (bit_vector); }
    else { assert(((b >> 7u8) & 1 != 0) == ((b / 128) % 2 == 1)) by (bit_vector); }
}

/// A one-bit mask, and that bit cleared or set, in arithmetic terms.
pub proof fn lemma_bit_mask(v: u8, k: u8)
    requires
        k < 8,
    ensures
        (1u8 << k) as int == pow2_of(k as int),
        (v & !(1u8 << k)) as int == v - (if (v >> k) & 1 == 1 { pow2_of(k as int) } else { 0 }),
        (v | (1u8 << k)) as int == v + (if (v >> k) & 1 == 1 { 0 } else { pow2_of(k as int) }),
{
    if k == 0 { assert((1u8 << 0u8) == 1 && (v & !(1u8 << 0u8)) == v - (if (v >> 0u8) & 1 == 1 { 1u8 } else { 0 }) && (v | (1u8 << 0u8)) == v + (if (v >> 0u8) & 1 == 1 { 0 } else { 1u8 })) by (bit_vector); }
    else if k == 1 { assert((1u8 << 1u8) == 2 && (v & !(1u8 << 1u8)) == v - (if (v >> 1u8) & 1 == 1 { 2u8 } else { 0 }) && (v | (1u8 << 1u8)) == v + (if (v >> 1u8) & 1 == 1 { 0 } else { 2u8 })) by (bit_vector); }
    else if k == 2 { assert((1u8 << 2u8) == 4 && (v & !(1u8 << 2u8)) == v - (if (v >> 2u8) & 1 == 1 { 4u8 } else { 0 }) && (v | (1u8 << 2u8)) == v + (if (v >> 2u8) & 1 == 1 { 0 } else { 4u8 })) by (bit_vector); }
    else if k == 3 { assert((1u8 << 3u8) == 8 && (v & !(1u8 << 3u8)) == v - (if (v >> 3u8) & 1 == 1 { 8u8 } else { 0 }) && (v | (1u8 << 3u8)) == v + (if (v >> 3u8) & 1 == 1 { 0 } else { 8u8 })) by (bit_vector); }
    else if k == 4 { assert((1u8 << 4u8) == 16 && (v & !(1u8 << 4u8)) == v - (if (v >> 4u8) & 1 == 1 { 16u8 } else { 0 }) && (v | (1u8 << 4u8)) == v + (if (v >> 4u8) & 1 == 1 { 0 } else { 16u8 })) by (bit_vector); }
    else if k == 5 { assert((1u8 << 5u8) == 32 && (v & !(1u8 << 5u8)) == v - (if (v >> 5u8) & 1 == 1 { 32u8 } else { 0 }) && (v | (1u8 << 5u8)) == v + (if (v >> 5u8) & 1 == 1 { 0 } else { 32u8 })) by (bit_vector); }
    else if k == 6 { assert((1u8 << 6u8) == 64 && (v & !(1u8 << 6u8)) == v - (if (v >> 6u8) & 1 == 1 { 64u8 } else { 0 }) && (v | (1u8 << 6u8)) == v + (if (v >> 6u8) & 1 == 1 { 0 } else { 64u8 })) by (bit_vector); }
    else { assert((1u8 << 7u8) == 128 && (v & !(1u8 << 7u8)) == v - (if (v >> 7u8) & 1 == 1 { 128u8 } else { 0 }) && (v | (1u8 << 7u8)) == v + (if (v >> 7u8) & 1 == 1 { 0 } else { 128u8 })) by (bit_vector); }
}

} // verus!
