//! Shared primitive helpers: the register-value metadata handed over by the
//! entry stub, bit-field slicing helpers, and the synchronization-barrier
//! kinds used by the drivers.
//!
//! Addresses and register words are `u64` throughout the crate: the target
//! is a 64-bit machine, and the bit layouts below are defined on 64-bit
//! words regardless of the host's pointer width.

use vstd::prelude::*;

verus! {

/// Values the bare-metal entry stub hands to the kernel in registers:
/// the DTB base, the initial stack pointer, and the bounds of the kernel
/// image sections.  All of them are physical addresses.
pub struct JerryMetaData {
    pub kernel_dtb_start: u64,
    pub kernel_init_sp: u64,
    pub kernel_bss_start: u64,
    pub kernel_bss_end: u64,
    pub kernel_bin_start: u64,
    pub kernel_rodata_start: u64,
    pub kernel_rodata_end: u64,
    pub kernel_text_start: u64,
    pub kernel_text_end: u64,
}

/// Synchronization-barrier type: full system, store, or load.  The barrier
/// instructions themselves are emitted outside this crate; the kind is data.
#[derive(Clone, Copy, PartialEq, Eq, Structural, Debug)]
pub enum SBType {
    Sy,
    St,
    Ld,
}

/// A mask of the `n + 1` low bits: `(1 << (n + 1)) - 1`.
pub fn n_bits(n: u64) -> (r: u64)
    requires
        n <= 62,
    ensures
        r == ((1u64 << ((n + 1) as u64)) - 1) as u64,
{
    assert(1u64 << ((n + 1) as u64) >= 1) by (bit_vector)
        requires
            n <= 62,
    ;
    (1u64 << (n + 1)) - 1
}

/// The bit-field `[msb:lsb]` of `from`, shifted down to bit 0.
pub fn get_bits(from: u64, msb: u64, lsb: u64) -> (r: u64)
    requires
        lsb <= msb,
        msb - lsb <= 62,
        msb < 64,
    ensures
        r == (from >> lsb) & (((1u64 << ((msb - lsb + 1) as u64)) - 1) as u64),
{
    (from >> lsb) & n_bits(msb - lsb)
}

/// Overwrite the bit-field `[msb:lsb]` of `*to` with the low bits of `from`,
/// leaving every bit outside the field unchanged.
pub fn set_bits(to: &mut u64, from: u64, msb: u64, lsb: u64)
    requires
        lsb <= msb,
        msb - lsb <= 62,
        msb < 64,
    ensures
        *final(to) == (*old(to) & !((((1u64 << ((msb - lsb + 1) as u64)) - 1) as u64) << lsb))
            | ((from & (((1u64 << ((msb - lsb + 1) as u64)) - 1) as u64)) << lsb),
{
    let mask: u64 = n_bits(msb - lsb) << lsb;
    *to = (*to & !mask) | ((from & n_bits(msb - lsb)) << lsb);
}

} // verus!
