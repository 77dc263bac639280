//! The numeric conversion rules of the calling convention: how a declared
//! integer value crosses a 32- or 64-bit slot, and the proof that widening
//! then narrowing gives the value back.
//!
//! A slot carries the two's-complement bit pattern of the value: widening an
//! unsigned value zero-extends it and widening a signed value sign-extends
//! it, both of which leave the encoded value unchanged; narrowing truncates
//! to the low bits of the declared width and re-applies the declared sign
//! interpretation.

use vstd::prelude::*;

use vstd::arithmetic::div_mod::lemma_mod_mod;
use vstd::arithmetic::div_mod::lemma_mod_multiples_vanish;
use vstd::arithmetic::div_mod::lemma_small_mod;

verus! {

/// Whether `bits` is a supported declared width.
pub open spec fn valid_width(bits: nat) -> bool {
    bits == 8 || bits == 16 || bits == 32 || bits == 64
}

/// The count of bit patterns of a supported width.
pub open spec fn width_modulus(bits: nat) -> int {
    if bits == 8 {
        0x100
    } else if bits == 16 {
        0x10000
    } else if bits == 32 {
        0x100000000
    } else {
        0x10000000000000000
    }
}

/// Whether `v` is representable at the declared width and signedness.
pub open spec fn in_range(v: int, bits: nat, signed: bool) -> bool {
    let m = width_modulus(bits);
    if signed {
        -(m / 2) <= v < m / 2
    } else {
        0 <= v < m
    }
}

/// The bit pattern an in-range value occupies in a slot of `slot_bits`
/// bits: its two's-complement encoding. Zero-extending an unsigned value
/// and sign-extending a signed one both produce exactly this pattern.
pub open spec fn spec_widen(v: int, slot_bits: nat) -> int {
    v % width_modulus(slot_bits)
}

/// The value read back from a slot pattern at a declared width: the low
/// `bits` bits, re-interpreted under the declared signedness.
pub open spec fn spec_narrow(p: int, bits: nat, signed: bool) -> int {
    let m = width_modulus(bits);
    let low = p % m;
    if signed && low >= m / 2 {
        low - m
    } else {
        low
    }
}

/// Numeric round trip: for every supported (declared width, slot width)
/// pair and every in-range value, narrowing the widened value gives the
/// value back.
pub proof fn lemma_numeric_round_trip(v: int, bits: nat, signed: bool, slot_bits: nat)
    requires
        valid_width(bits),
        slot_bits == 32 || slot_bits == 64,
        bits <= slot_bits,
        in_range(v, bits, signed),
    ensures
        spec_narrow(spec_widen(v, slot_bits), bits, signed) == v,
{
    let w = width_modulus(bits);
    let s = width_modulus(slot_bits);
    assert(s == w * (s / w));
    lemma_mod_mod(v, w, s / w);
    assert((v % s) % w == v % w);
    if v >= 0 {
        lemma_small_mod(v as nat, w as nat);
    } else {
        lemma_mod_multiples_vanish(1, v, w);
        lemma_small_mod((v + w) as nat, w as nat);
    }
}

/// Widens an unsigned value of the given declared width into a slot:
/// zero-extension, which leaves the value unchanged.
pub fn widen_unsigned(v: u64, bits: u32, slot_bits: u32) -> (r: u64)
    requires
        valid_width(bits as nat),
        slot_bits == 32 || slot_bits == 64,
        bits <= slot_bits,
        in_range(v as int, bits as nat, false),
    ensures
        r as int == spec_widen(v as int, slot_bits as nat),
{
    proof {
        lemma_small_mod(v as nat, width_modulus(slot_bits as nat) as nat);
    }
    v
}

/// Widens a signed value of the given declared width into a slot:
/// sign-extension, producing the two's-complement pattern of the value.
pub fn widen_signed(v: i64, bits: u32, slot_bits: u32) -> (r: u64)
    requires
        valid_width(bits as nat),
        slot_bits == 32 || slot_bits == 64,
        bits <= slot_bits,
        in_range(v as int, bits as nat, true),
    ensures
        r as int == spec_widen(v as int, slot_bits as nat),
{
    let wide: u64 = if v >= 0 {
        v as u64
    } else {
        u64::MAX - ((-(v + 1)) as u64)
    };
    proof {
        if v >= 0 {
            lemma_small_mod(v as nat, 0x10000000000000000);
        } else {
            lemma_mod_multiples_vanish(1, v as int, 0x10000000000000000);
            lemma_small_mod((v + 0x10000000000000000) as nat, 0x10000000000000000);
        }
        assert(wide as int == v as int % 0x10000000000000000);
    }
    if slot_bits == 32 {
        let r = wide & 0xffff_ffff;
        proof {
            assert(wide & 0xffff_ffff == wide % 0x100000000) by (bit_vector);
            lemma_mod_mod(v as int, 0x100000000, 0x100000000);
        }
        r
    } else {
        wide
    }
}

/// Narrows a slot pattern to an unsigned value of the declared width:
/// truncation to the low bits.
pub fn narrow_unsigned(p: u64, bits: u32) -> (r: u64)
    requires
        valid_width(bits as nat),
    ensures
        r as int == spec_narrow(p as int, bits as nat, false),
{
    if bits == 8 {
        let r = p & 0xff;
        proof {
            assert(p & 0xff == p % 0x100) by (bit_vector);
        }
        r
    } else if bits == 16 {
        let r = p & 0xffff;
        proof {
            assert(p & 0xffff == p % 0x10000) by (bit_vector);
        }
        r
    } else if bits == 32 {
        let r = p & 0xffff_ffff;
        proof {
            assert(p & 0xffff_ffff == p % 0x100000000) by (bit_vector);
        }
        r
    } else {
        proof {
            lemma_small_mod(p as nat, 0x10000000000000000);
        }
        p
    }
}

/// Narrows a slot pattern to a signed value of the declared width:
/// truncation to the low bits, then sign re-interpretation.
pub fn narrow_signed(p: u64, bits: u32) -> (r: i64)
    requires
        valid_width(bits as nat),
    ensures
        r as int == spec_narrow(p as int, bits as nat, true),
{
    if bits == 64 {
        let r: i64 = if p < 0x8000000000000000 {
            p as i64
        } else {
            -((u64::MAX - p) as i64) - 1
        };
        proof {
            lemma_small_mod(p as nat, 0x10000000000000000);
        }
        r
    } else {
        let low = narrow_unsigned(p, bits);
        let m: u64 = if bits == 8 {
            0x100
        } else if bits == 16 {
            0x10000
        } else {
            0x1_0000_0000
        };
        if low >= m / 2 {
            proof {
                vstd::arithmetic::div_mod::lemma_mod_bound(p as int, m as int);
            }
            (low as i64) - (m as i64)
        } else {
            low as i64
        }
    }
}

} // verus!
