//! Translation-table descriptors: typed accessors over the 64-bit stage-1
//! descriptor words of the ARMv8-A 16 KiB-granule format used at EL1.
//!
//! Each descriptor type is a wrapper around one `u64`; a store into a table
//! is a plain 64-bit write of that word.  The field layouts are fixed:
//!
//! * table descriptor: `valid` (bit 0), `table` (bit 1), next-level table
//!   address NLTA (bits 47:14);
//! * page descriptor (L3 leaf): `valid` (bit 0), `descriptor_type` (bit 1),
//!   access flag AF (bit 10), output-address bits OAB (bits 47:14);
//! * block descriptor (L2 leaf, unused by bring-up): same low bits with
//!   OAB at bits 47:25.
//!
//! NLTA and OAB carry the upper bits of a physical address; the low 14 bits
//! of a 16 KiB-aligned address are zero, so `pa -> field` is `pa >> 14` and
//! back is `field << 14`.

use vstd::prelude::*;

verus! {

/// Meaning of bit 0 of a table descriptor: the entry is valid.
pub open spec fn td_valid(d: u64) -> bool {
    d & 1u64 == 1u64
}

/// Meaning of bit 1 of a table descriptor: the entry points at a
/// next-level table rather than a block.
pub open spec fn td_table(d: u64) -> bool {
    d & 2u64 == 2u64
}

/// The 34-bit next-level table address field, bits 47:14.
pub open spec fn td_nlta(d: u64) -> u64 {
    (d >> 14u64) & 0x3_FFFF_FFFFu64
}

/// Meaning of bit 0 of a page descriptor: the entry is valid.
pub open spec fn pd_valid(d: u64) -> bool {
    d & 1u64 == 1u64
}

/// Meaning of bit 1 of a page descriptor: the entry is a page (an L3 leaf).
pub open spec fn pd_page(d: u64) -> bool {
    d & 2u64 == 2u64
}

/// The access flag of a page descriptor, bit 10.
pub open spec fn pd_af(d: u64) -> bool {
    d & 0x400u64 == 0x400u64
}

/// The 34-bit output-address field of a page descriptor, bits 47:14.
pub open spec fn pd_oab(d: u64) -> u64 {
    (d >> 14u64) & 0x3_FFFF_FFFFu64
}

/// The 23-bit output-address field of a block descriptor, bits 47:25.
pub open spec fn bd_oab(d: u64) -> u64 {
    (d >> 25u64) & 0x7F_FFFFu64
}

/// Stage-1 table descriptor: a valid entry whose `table` bit is set points
/// at the 16 KiB table whose physical address is `nlta << 14`.
#[derive(Clone, Copy, PartialEq, Eq, Structural, Debug)]
pub struct TableDescriptorS1 {
    pub bits: u64,
}

impl TableDescriptorS1 {
    /// The all-zero descriptor: invalid.
    pub fn new() -> (r: Self)
        ensures
            r.bits == 0u64,
            !td_valid(r.bits),
            !td_table(r.bits),
            td_nlta(r.bits) == 0u64,
    {
        proof {
            assert(!td_valid(0u64) && !td_table(0u64) && td_nlta(0u64) == 0u64) by (bit_vector);
        }
        TableDescriptorS1 { bits: 0 }
    }

    pub fn valid_bit(&self) -> (r: bool)
        ensures
            r == td_valid(self.bits),
    {
        self.bits & 1u64 == 1u64
    }

    pub fn table_descriptor(&self) -> (r: bool)
        ensures
            r == td_table(self.bits),
    {
        self.bits & 2u64 == 2u64
    }

    pub fn nlta(&self) -> (r: u64)
        ensures
            r == td_nlta(self.bits),
    {
        (self.bits >> 14u64) & 0x3_FFFF_FFFFu64
    }

    pub fn with_valid_bit(self, v: bool) -> (r: Self)
        ensures
            td_valid(r.bits) == v,
            td_table(r.bits) == td_table(self.bits),
            td_nlta(r.bits) == td_nlta(self.bits),
    {
        let b: u64 = if v {
            self.bits | 1u64
        } else {
            self.bits & !1u64
        };
        proof {
            let a = self.bits;
            assert(td_valid(if v { a | 1u64 } else { a & !1u64 }) == v
                && td_table(if v { a | 1u64 } else { a & !1u64 }) == td_table(a)
                && td_nlta(if v { a | 1u64 } else { a & !1u64 }) == td_nlta(a)) by (bit_vector);
        }
        TableDescriptorS1 { bits: b }
    }

    pub fn with_table_descriptor(self, v: bool) -> (r: Self)
        ensures
            td_table(r.bits) == v,
            td_valid(r.bits) == td_valid(self.bits),
            td_nlta(r.bits) == td_nlta(self.bits),
    {
        let b: u64 = if v {
            self.bits | 2u64
        } else {
            self.bits & !2u64
        };
        proof {
            let a = self.bits;
            assert(td_table(if v { a | 2u64 } else { a & !2u64 }) == v
                && td_valid(if v { a | 2u64 } else { a & !2u64 }) == td_valid(a)
                && td_nlta(if v { a | 2u64 } else { a & !2u64 }) == td_nlta(a)) by (bit_vector);
        }
        TableDescriptorS1 { bits: b }
    }

    pub fn with_nlta(self, n: u64) -> (r: Self)
        requires
            n < (1u64 << 34u64),
        ensures
            td_nlta(r.bits) == n,
            td_valid(r.bits) == td_valid(self.bits),
            td_table(r.bits) == td_table(self.bits),
    {
        let b: u64 = (self.bits & !(0x3_FFFF_FFFFu64 << 14u64)) | (n << 14u64);
        proof {
            let a = self.bits;
            assert(td_nlta((a & !(0x3_FFFF_FFFFu64 << 14u64)) | (n << 14u64)) == n
                && td_valid((a & !(0x3_FFFF_FFFFu64 << 14u64)) | (n << 14u64)) == td_valid(a)
                && td_table((a & !(0x3_FFFF_FFFFu64 << 14u64)) | (n << 14u64)) == td_table(a))
                by (bit_vector)
                requires
                    n < (1u64 << 34u64),
            ;
        }
        TableDescriptorS1 { bits: b }
    }
}

/// Stage-1 page descriptor: an L3 leaf mapping one 16 KiB page whose
/// physical address is `oab << 14`.
#[derive(Clone, Copy, PartialEq, Eq, Structural, Debug)]
pub struct PageDescriptorS1 {
    pub bits: u64,
}

impl PageDescriptorS1 {
    /// The all-zero descriptor: invalid.
    pub fn new() -> (r: Self)
        ensures
            r.bits == 0u64,
            !pd_valid(r.bits),
            !pd_page(r.bits),
            !pd_af(r.bits),
            pd_oab(r.bits) == 0u64,
    {
        proof {
            assert(!pd_valid(0u64) && !pd_page(0u64) && !pd_af(0u64) && pd_oab(0u64) == 0u64)
                by (bit_vector);
        }
        PageDescriptorS1 { bits: 0 }
    }

    pub fn valid_bit(&self) -> (r: bool)
        ensures
            r == pd_valid(self.bits),
    {
        self.bits & 1u64 == 1u64
    }

    pub fn descriptor_type(&self) -> (r: bool)
        ensures
            r == pd_page(self.bits),
    {
        self.bits & 2u64 == 2u64
    }

    pub fn af(&self) -> (r: bool)
        ensures
            r == pd_af(self.bits),
    {
        self.bits & 0x400u64 == 0x400u64
    }

    pub fn oab(&self) -> (r: u64)
        ensures
            r == pd_oab(self.bits),
    {
        (self.bits >> 14u64) & 0x3_FFFF_FFFFu64
    }

    pub fn with_valid_bit(self, v: bool) -> (r: Self)
        ensures
            r.bits == (if v { self.bits | 1u64 } else { self.bits & !1u64 }),
            pd_valid(r.bits) == v,
            pd_page(r.bits) == pd_page(self.bits),
            pd_af(r.bits) == pd_af(self.bits),
            pd_oab(r.bits) == pd_oab(self.bits),
    {
        let b: u64 = if v {
            self.bits | 1u64
        } else {
            self.bits & !1u64
        };
        proof {
            let a = self.bits;
            assert(pd_valid(if v { a | 1u64 } else { a & !1u64 }) == v
                && pd_page(if v { a | 1u64 } else { a & !1u64 }) == pd_page(a)
                && pd_af(if v { a | 1u64 } else { a & !1u64 }) == pd_af(a)
                && pd_oab(if v { a | 1u64 } else { a & !1u64 }) == pd_oab(a)) by (bit_vector);
        }
        PageDescriptorS1 { bits: b }
    }

    pub fn with_descriptor_type(self, v: bool) -> (r: Self)
        ensures
            r.bits == (if v { self.bits | 2u64 } else { self.bits & !2u64 }),
            pd_page(r.bits) == v,
            pd_valid(r.bits) == pd_valid(self.bits),
            pd_af(r.bits) == pd_af(self.bits),
            pd_oab(r.bits) == pd_oab(self.bits),
    {
        let b: u64 = if v {
            self.bits | 2u64
        } else {
            self.bits & !2u64
        };
        proof {
            let a = self.bits;
            assert(pd_page(if v { a | 2u64 } else { a & !2u64 }) == v
                && pd_valid(if v { a | 2u64 } else { a & !2u64 }) == pd_valid(a)
                && pd_af(if v { a | 2u64 } else { a & !2u64 }) == pd_af(a)
                && pd_oab(if v { a | 2u64 } else { a & !2u64 }) == pd_oab(a)) by (bit_vector);
        }
        PageDescriptorS1 { bits: b }
    }

    pub fn with_af(self, v: bool) -> (r: Self)
        ensures
            r.bits == (if v { self.bits | 0x400u64 } else { self.bits & !0x400u64 }),
            pd_af(r.bits) == v,
            pd_valid(r.bits) == pd_valid(self.bits),
            pd_page(r.bits) == pd_page(self.bits),
            pd_oab(r.bits) == pd_oab(self.bits),
    {
        let b: u64 = if v {
            self.bits | 0x400u64
        } else {
            self.bits & !0x400u64
        };
        proof {
            let a = self.bits;
            assert(pd_af(if v { a | 0x400u64 } else { a & !0x400u64 }) == v
                && pd_valid(if v { a | 0x400u64 } else { a & !0x400u64 }) == pd_valid(a)
                && pd_page(if v { a | 0x400u64 } else { a & !0x400u64 }) == pd_page(a)
                && pd_oab(if v { a | 0x400u64 } else { a & !0x400u64 }) == pd_oab(a))
                by (bit_vector);
        }
        PageDescriptorS1 { bits: b }
    }

    pub fn with_oab(self, n: u64) -> (r: Self)
        requires
            n < (1u64 << 34u64),
        ensures
            r.bits == (self.bits & !(0x3_FFFF_FFFFu64 << 14u64)) | (n << 14u64),
            pd_oab(r.bits) == n,
            pd_valid(r.bits) == pd_valid(self.bits),
            pd_page(r.bits) == pd_page(self.bits),
            pd_af(r.bits) == pd_af(self.bits),
    {
        let b: u64 = (self.bits & !(0x3_FFFF_FFFFu64 << 14u64)) | (n << 14u64);
        proof {
            let a = self.bits;
            assert(pd_oab((a & !(0x3_FFFF_FFFFu64 << 14u64)) | (n << 14u64)) == n
                && pd_valid((a & !(0x3_FFFF_FFFFu64 << 14u64)) | (n << 14u64)) == pd_valid(a)
                && pd_page((a & !(0x3_FFFF_FFFFu64 << 14u64)) | (n << 14u64)) == pd_page(a)
                && pd_af((a & !(0x3_FFFF_FFFFu64 << 14u64)) | (n << 14u64)) == pd_af(a))
                by (bit_vector)
                requires
                    n < (1u64 << 34u64),
            ;
        }
        PageDescriptorS1 { bits: b }
    }
}

/// Stage-1 block descriptor: an L2 leaf mapping a 32 MiB block.  Part of
/// the descriptor schema; the bring-up never installs one.
#[derive(Clone, Copy, PartialEq, Eq, Structural, Debug)]
pub struct BlockDescriptorS1 {
    pub bits: u64,
}

impl BlockDescriptorS1 {
    /// The all-zero descriptor: invalid.
    pub fn new() -> (r: Self)
        ensures
            r.bits == 0u64,
    {
        BlockDescriptorS1 { bits: 0 }
    }

    pub fn valid_bit(&self) -> (r: bool)
        ensures
            r == (self.bits & 1u64 == 1u64),
    {
        self.bits & 1u64 == 1u64
    }

    pub fn descriptor_type(&self) -> (r: bool)
        ensures
            r == (self.bits & 2u64 == 2u64),
    {
        self.bits & 2u64 == 2u64
    }

    pub fn oab(&self) -> (r: u64)
        ensures
            r == bd_oab(self.bits),
    {
        (self.bits >> 25u64) & 0x7F_FFFFu64
    }
}

/// Convert a 16 KiB-aligned physical address to the NLTA field of a table
/// descriptor: the address's bits 47:14.
pub fn pa_to_nlta(pa: u64) -> (r: u64)
    requires
        pa < (1u64 << 48u64),
    ensures
        r == pa >> 14u64,
        r < (1u64 << 34u64),
{
    proof {
        assert(pa < (1u64 << 48u64) ==> (pa >> 14u64) < (1u64 << 34u64)) by (bit_vector);
    }
    pa >> 14
}

/// Convert an NLTA field back to the physical address of the table it
/// names: `nlta << 14`.
pub fn nlta_to_pa(nlta: u64) -> (r: u64)
    requires
        nlta < (1u64 << 34u64),
    ensures
        r == nlta << 14u64,
{
    nlta << 14
}

/// Convert a 16 KiB-aligned physical address to the OAB field of a page
/// descriptor: the address's bits 47:14.
pub fn pa_to_oab(pa: u64) -> (r: u64)
    requires
        pa < (1u64 << 48u64),
    ensures
        r == pa >> 14u64,
        r < (1u64 << 34u64),
{
    proof {
        assert(pa < (1u64 << 48u64) ==> (pa >> 14u64) < (1u64 << 34u64)) by (bit_vector);
    }
    pa >> 14
}

/// Convert an OAB field back to the physical address of the page it
/// names: `oab << 14`.
pub fn oab_to_pa(oab: u64) -> (r: u64)
    requires
        oab < (1u64 << 34u64),
    ensures
        r == oab << 14u64,
{
    oab << 14
}

/// Shifting an aligned address down fourteen bits and back up recovers it:
/// the address-to-field conversions lose nothing on page-aligned inputs.
pub proof fn lemma_pa_field_roundtrip(pa: u64)
    requires
        pa < (1u64 << 48u64),
        pa % 16384u64 == 0u64,
    ensures
        (pa >> 14u64) << 14u64 == pa,
{
    assert(pa < (1u64 << 48u64) && pa % 16384u64 == 0u64 ==> (pa >> 14u64) << 14u64 == pa)
        by (bit_vector);
}

} // verus!
