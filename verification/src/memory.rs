//! Memory bring-up: address-space constants, the high-half address
//! translation helpers, the TCR_EL1 register image, and the orchestration
//! that reads RAM geometry from the device tree, initialises the physical
//! page manager, bootstraps the kernel page tables and turns the MMU on.

use vstd::prelude::*;

use crate::fdt::{reg_decodes_to, reg_spec, FDTError, FDTNode, LibFdt};
use crate::ppm::{init_ppm, Ppm, PPMError};
use crate::ptm::{
    all_leaves_strict, bootstrap_kernel_page_tables, ident_mapped, ident_mapped_af,
    lemma_pow2_consts, linear_mapped, linear_mapped_af, root_frames_reserved, root_wf, RootTable,
    PTMError,
};

verus! {

/// log2 of the translation granule: pages are 16 KiB.
pub const PAGE_GRANULARITY: u64 = 14;

/// The page length in bytes: `1 << PAGE_GRANULARITY`.
pub const PAGE_LEN: u64 = 16384;

/// T0SZ and T1SZ: each translation region spans `2^(64 - 25) = 2^39`
/// bytes, so a virtual address carries 39 significant bits.
pub const T0_T1_SZ: u64 = 25;

/// A high-half virtual address has its top 25 bits set:
/// `((1 << 25) - 1) << 39`.
pub const TTBR1_MASK: u64 = 0xFFFF_FF80_0000_0000;

/// Entries per table level: the root holds 8, L2 and L3 hold 2048.
pub const L1_TABLE_ENTRIES: u64 = 8;

pub const L2_TABLE_ENTRIES: u64 = 2048;

pub const L3_TABLE_ENTRIES: u64 = 2048;

/// Translate a high-half RAM virtual address back to its physical
/// address: strip the high-half mask and rebase at the start of RAM.
pub fn ram_va_to_pa(va: u64, ram_start: u64) -> (r: u64)
    requires
        ram_start <= u64::MAX - 0x7F_FFFF_FFFFu64,
    ensures
        r == (!TTBR1_MASK & va) + ram_start,
{
    proof {
        assert(!0xFFFF_FF80_0000_0000u64 & va <= 0x7F_FFFF_FFFFu64) by (bit_vector);
    }
    (!TTBR1_MASK & va) + ram_start
}

/// Translate a RAM physical address to the high-half virtual address the
/// kernel reaches it at once the MMU is on: its offset from the start of
/// RAM, with the high-half mask set.
pub fn pa_to_ram_va(pa: u64, ram_start: u64) -> (r: u64)
    requires
        ram_start <= pa,
    ensures
        r == TTBR1_MASK | (pa - ram_start) as u64,
{
    TTBR1_MASK | (pa - ram_start)
}

/// Address-math round trip: for every physical address within the 2^39
/// bytes that the high-half window covers, translating to its RAM
/// virtual address and back recovers it exactly, and the top bits of the
/// virtual address equal `TTBR1_MASK`.
pub proof fn lemma_ram_va_round_trip(pa: u64, ram_start: u64)
    requires
        ram_start <= pa,
        pa - ram_start < 0x80_0000_0000u64,
    ensures
        (!TTBR1_MASK & (TTBR1_MASK | (pa - ram_start) as u64)) + ram_start == pa,
        (TTBR1_MASK | (pa - ram_start) as u64) & TTBR1_MASK == TTBR1_MASK,
{
    let off = (pa - ram_start) as u64;
    assert(off < 0x80_0000_0000u64 ==> (!0xFFFF_FF80_0000_0000u64 & (0xFFFF_FF80_0000_0000u64
        | off)) == off && (0xFFFF_FF80_0000_0000u64 | off) & 0xFFFF_FF80_0000_0000u64
        == 0xFFFF_FF80_0000_0000u64) by (bit_vector);
}

/// The translation-control register image for EL1, built field by field.
/// Only the fields this kernel programs are exposed; the rest of the
/// 64-bit image stays zero.
#[derive(Clone, Copy, PartialEq, Eq, Structural, Debug)]
pub struct TcrEl1 {
    pub bits: u64,
}

/// T0SZ: bits [5:0].
pub open spec fn tcr_t0sz(b: u64) -> u64 {
    b & 0x3Fu64
}

/// TG0: bits [15:14].
pub open spec fn tcr_tg0(b: u64) -> u64 {
    (b >> 14u64) & 3u64
}

/// T1SZ: bits [21:16].
pub open spec fn tcr_t1sz(b: u64) -> u64 {
    (b >> 16u64) & 0x3Fu64
}

/// TG1: bits [31:30].
pub open spec fn tcr_tg1(b: u64) -> u64 {
    (b >> 30u64) & 3u64
}

/// DS: bit 59.
pub open spec fn tcr_ds(b: u64) -> bool {
    b & 0x0800_0000_0000_0000u64 == 0x0800_0000_0000_0000u64
}

impl TcrEl1 {
    /// The all-zero register image.
    pub fn new() -> (r: Self)
        ensures
            r.bits == 0u64,
            tcr_t0sz(r.bits) == 0u64,
            tcr_t1sz(r.bits) == 0u64,
            tcr_tg0(r.bits) == 0u64,
            tcr_tg1(r.bits) == 0u64,
            !tcr_ds(r.bits),
    {
        proof {
            assert(tcr_t0sz(0u64) == 0u64 && tcr_t1sz(0u64) == 0u64 && tcr_tg0(0u64) == 0u64
                && tcr_tg1(0u64) == 0u64 && !tcr_ds(0u64)) by (bit_vector);
        }
        TcrEl1 { bits: 0 }
    }

    pub fn with_t0sz(self, v: u64) -> (r: Self)
        requires
            v < 64,
        ensures
            tcr_t0sz(r.bits) == v,
            tcr_t1sz(r.bits) == tcr_t1sz(self.bits),
            tcr_tg0(r.bits) == tcr_tg0(self.bits),
            tcr_tg1(r.bits) == tcr_tg1(self.bits),
            tcr_ds(r.bits) == tcr_ds(self.bits),
    {
        let b: u64 = (self.bits & !0x3Fu64) | v;
        proof {
            let a = self.bits;
            assert(v < 64 ==> tcr_t0sz((a & !0x3Fu64) | v) == v && tcr_t1sz((a & !0x3Fu64) | v)
                == tcr_t1sz(a) && tcr_tg0((a & !0x3Fu64) | v) == tcr_tg0(a) && tcr_tg1((a
                & !0x3Fu64) | v) == tcr_tg1(a) && tcr_ds((a & !0x3Fu64) | v) == tcr_ds(a))
                by (bit_vector);
        }
        TcrEl1 { bits: b }
    }

    pub fn with_t1sz(self, v: u64) -> (r: Self)
        requires
            v < 64,
        ensures
            tcr_t1sz(r.bits) == v,
            tcr_t0sz(r.bits) == tcr_t0sz(self.bits),
            tcr_tg0(r.bits) == tcr_tg0(self.bits),
            tcr_tg1(r.bits) == tcr_tg1(self.bits),
            tcr_ds(r.bits) == tcr_ds(self.bits),
    {
        let b: u64 = (self.bits & !(0x3Fu64 << 16u64)) | (v << 16u64);
        proof {
            let a = self.bits;
            assert(v < 64 ==> tcr_t1sz((a & !(0x3Fu64 << 16u64)) | (v << 16u64)) == v && tcr_t0sz(
                (a & !(0x3Fu64 << 16u64)) | (v << 16u64)) == tcr_t0sz(a) && tcr_tg0((a & !(0x3Fu64
                << 16u64)) | (v << 16u64)) == tcr_tg0(a) && tcr_tg1((a & !(0x3Fu64 << 16u64)) | (v
                << 16u64)) == tcr_tg1(a) && tcr_ds((a & !(0x3Fu64 << 16u64)) | (v << 16u64))
                == tcr_ds(a)) by (bit_vector);
        }
        TcrEl1 { bits: b }
    }

    pub fn with_tg0(self, v: u64) -> (r: Self)
        requires
            v < 4,
        ensures
            tcr_tg0(r.bits) == v,
            tcr_t0sz(r.bits) == tcr_t0sz(self.bits),
            tcr_t1sz(r.bits) == tcr_t1sz(self.bits),
            tcr_tg1(r.bits) == tcr_tg1(self.bits),
            tcr_ds(r.bits) == tcr_ds(self.bits),
    {
        let b: u64 = (self.bits & !(3u64 << 14u64)) | (v << 14u64);
        proof {
            let a = self.bits;
            assert(v < 4 ==> tcr_tg0((a & !(3u64 << 14u64)) | (v << 14u64)) == v && tcr_t0sz((a
                & !(3u64 << 14u64)) | (v << 14u64)) == tcr_t0sz(a) && tcr_t1sz((a & !(3u64
                << 14u64)) | (v << 14u64)) == tcr_t1sz(a) && tcr_tg1((a & !(3u64 << 14u64)) | (v
                << 14u64)) == tcr_tg1(a) && tcr_ds((a & !(3u64 << 14u64)) | (v << 14u64))
                == tcr_ds(a)) by (bit_vector);
        }
        TcrEl1 { bits: b }
    }

    pub fn with_tg1(self, v: u64) -> (r: Self)
        requires
            v < 4,
        ensures
            tcr_tg1(r.bits) == v,
            tcr_t0sz(r.bits) == tcr_t0sz(self.bits),
            tcr_t1sz(r.bits) == tcr_t1sz(self.bits),
            tcr_tg0(r.bits) == tcr_tg0(self.bits),
            tcr_ds(r.bits) == tcr_ds(self.bits),
    {
        let b: u64 = (self.bits & !(3u64 << 30u64)) | (v << 30u64);
        proof {
            let a = self.bits;
            assert(v < 4 ==> tcr_tg1((a & !(3u64 << 30u64)) | (v << 30u64)) == v && tcr_t0sz((a
                & !(3u64 << 30u64)) | (v << 30u64)) == tcr_t0sz(a) && tcr_t1sz((a & !(3u64
                << 30u64)) | (v << 30u64)) == tcr_t1sz(a) && tcr_tg0((a & !(3u64 << 30u64)) | (v
                << 30u64)) == tcr_tg0(a) && tcr_ds((a & !(3u64 << 30u64)) | (v << 30u64))
                == tcr_ds(a)) by (bit_vector);
        }
        TcrEl1 { bits: b }
    }

    pub fn with_ds(self, v: bool) -> (r: Self)
        ensures
            tcr_ds(r.bits) == v,
            tcr_t0sz(r.bits) == tcr_t0sz(self.bits),
            tcr_t1sz(r.bits) == tcr_t1sz(self.bits),
            tcr_tg0(r.bits) == tcr_tg0(self.bits),
            tcr_tg1(r.bits) == tcr_tg1(self.bits),
    {
        let b: u64 = if v {
            self.bits | 0x0800_0000_0000_0000u64
        } else {
            self.bits & !0x0800_0000_0000_0000u64
        };
        proof {
            let a = self.bits;
            assert(tcr_ds(if v { a | 0x0800_0000_0000_0000u64 } else { a & !0x0800_0000_0000_0000u64 }) == v
                && tcr_t0sz(if v { a | 0x0800_0000_0000_0000u64 } else { a & !0x0800_0000_0000_0000u64 }) == tcr_t0sz(a)
                && tcr_t1sz(if v { a | 0x0800_0000_0000_0000u64 } else { a & !0x0800_0000_0000_0000u64 }) == tcr_t1sz(a)
                && tcr_tg0(if v { a | 0x0800_0000_0000_0000u64 } else { a & !0x0800_0000_0000_0000u64 }) == tcr_tg0(a)
                && tcr_tg1(if v { a | 0x0800_0000_0000_0000u64 } else { a & !0x0800_0000_0000_0000u64 }) == tcr_tg1(a))
                by (bit_vector);
        }
        TcrEl1 { bits: b }
    }
}

#[derive(Clone, Copy, PartialEq, Eq, Structural, Debug)]
pub enum MemoryError {
    RAMFDTNodeGetRegFailed(FDTError),
    PPMInitFailed(PPMError),
    KernelPTBootStrapFailed(PTMError),
}

/// The kernel's memory-management state after bring-up: RAM geometry,
/// the frame registry, the two root tables, the programmed TCR image and
/// the MMU flag.  On the real machine these are process-wide singletons
/// set exactly once; here they are one record handed to every component.
#[derive(Debug)]
pub struct MemoryState {
    pub ram_start: u64,
    pub ram_len: u64,
    pub kernel_mem_end: u64,
    pub mmu_enabled: bool,
    pub ppm: Ppm,
    pub root0: RootTable,
    pub root1: RootTable,
    pub tcr: TcrEl1,
}

impl MemoryState {
    /// Whether address translation has been switched on.
    pub fn mmu_is_enabled(&self) -> (r: bool)
        ensures
            r == self.mmu_enabled,
    {
        self.mmu_enabled
    }

    /// The low-half (identity) root table, `TTBR0_EL1`'s target.
    pub fn get_kernel_root_table_0(&self) -> (r: &RootTable)
        ensures
            *r == self.root0,
    {
        &self.root0
    }

    /// The high-half (linear-map) root table, `TTBR1_EL1`'s target.
    pub fn get_kernel_root_table_1(&self) -> (r: &RootTable)
        ensures
            *r == self.root1,
    {
        &self.root1
    }
}

/// Program the translation registers and set the MMU flag.  On hardware
/// this writes `TTBR0_EL1`/`TTBR1_EL1` with the physical addresses of the
/// two root tables and `TCR_EL1` with the register image, issues an ISB,
/// sets `SCTLR_EL1.M`, and issues a second ISB so the next instruction
/// fetch translates; those register writes live outside this crate, and
/// the state records their effect.
fn enable_mmu(mem: &mut MemoryState, tcr_el1: TcrEl1)
    ensures
        *final(mem) == (MemoryState { mmu_enabled: true, tcr: tcr_el1, ..*old(mem) }),
{
    mem.tcr = tcr_el1;
    mem.mmu_enabled = true;
}

/// The geometry `init_memory` derives before it mutates anything, from
/// the values its arguments decode to: frame count, reserved-page count
/// and the end of reserved memory.
pub open spec fn ppm_geometry(static_kernel_mem_end: u64, ram_start: u64, ram_len: u64) -> (
    int,
    int,
    int,
) {
    let n = (ram_start + ram_len) / (PAGE_LEN as int);
    let static_pages = (static_kernel_mem_end - 1) / (PAGE_LEN as int) + 1;
    let registry_pages = (n + PAGE_LEN as int - 1) / (PAGE_LEN as int);
    (n, static_pages, registry_pages)
}

/// Initialise the memory subsystems from the RAM node's `reg` property:
/// store the geometry, build the frame registry, bootstrap the page
/// tables for the DTB, the kernel image and the high-half RAM map, then
/// program TCR (16 KiB granules both halves, 39-bit regions, DS off) and
/// enable the MMU.
///
/// The caller guarantees the boot environment's invariants for whatever
/// geometry the node decodes to: the kernel image lies inside RAM, RAM
/// and the DTB lie below the 39-bit horizon, and everything is page
/// aligned.  A firmware blob whose `reg` does not decode fails with
/// `RAMFDTNodeGetRegFailed`; a machine whose RAM cannot even hold the
/// reserved pages fails with `PPMInitFailed`; conflicts or exhaustion
/// while building the tables fail with `KernelPTBootStrapFailed`.
pub fn init_memory(
    dram_node: &FDTNode,
    fdt: &LibFdt,
    static_kernel_mem_end: u64,
    dtb_start: u64,
    dtb_end: u64,
) -> (r: Result<MemoryState, MemoryError>)
    requires
        static_kernel_mem_end >= 1,
        dtb_start % PAGE_LEN == 0,
        dtb_start <= dtb_end,
        dtb_end <= 0x80_0000_0000u64,
        forall|rs: u64, rl: u64|
            crate::fdt::prop_lookup(dram_node.properties@, seq![114u8, 101u8, 103u8]) is Some
                && #[trigger] reg_decodes_to(dram_node, fdt, rs, rl) ==> rs % PAGE_LEN == 0 && rs
                <= static_kernel_mem_end && static_kernel_mem_end <= rs + rl && rs + rl
                <= 0x80_0000_0000u64 && (rs + rl) / (PAGE_LEN as int) <= usize::MAX,
    ensures
        ({
            let reg = reg_spec(dram_node, fdt);
            match reg {
                Err(e) => r == Err::<MemoryState, MemoryError>(
                    MemoryError::RAMFDTNodeGetRegFailed(e),
                ),
                Ok((rs, rl)) => {
                    let (n, static_pages, registry_pages) = ppm_geometry(
                        static_kernel_mem_end,
                        rs,
                        rl,
                    );
                    let used = static_pages + registry_pages;
                    &&& (used > n ==> r == Err::<MemoryState, MemoryError>(
                        MemoryError::PPMInitFailed(PPMError::InvalidPageIdxRange),
                    ))
                    &&& (r is Err ==> r->Err_0 is PPMInitFailed || r->Err_0
                        is KernelPTBootStrapFailed)
                    &&& (r is Err && r->Err_0 is PPMInitFailed ==> used > n)
                    &&& (r is Err && r->Err_0 is KernelPTBootStrapFailed ==> r->Err_0
                        == MemoryError::KernelPTBootStrapFailed(
                        PTMError::GetFreePageFailed(PPMError::NoFreePages),
                    ))
                    &&& (r is Ok ==> {
                        let mem = r->Ok_0;
                        &&& mem.ram_start == rs
                        &&& mem.ram_len == rl
                        &&& mem.mmu_enabled
                        &&& mem.kernel_mem_end == used * PAGE_LEN
                        &&& mem.ppm.registry@.len() == n
                        &&& root_wf(mem.root0)
                        &&& root_wf(mem.root1)
                        &&& root_frames_reserved(mem.root0, mem.ppm.registry@)
                        &&& root_frames_reserved(mem.root1, mem.ppm.registry@)
                        &&& ident_mapped(mem.root0, dtb_start, dtb_end)
                        &&& ident_mapped(mem.root0, rs, (used * PAGE_LEN) as u64)
                        &&& linear_mapped(mem.root1, rs, rs, (rs + rl) as u64)
                        &&& all_leaves_strict(mem.root0)
                        &&& all_leaves_strict(mem.root1)
                        &&& ident_mapped_af(mem.root0, dtb_start, dtb_end)
                        &&& ident_mapped_af(mem.root0, rs, (used * PAGE_LEN) as u64)
                        &&& linear_mapped_af(mem.root1, rs, rs, (rs + rl) as u64)
                        &&& (forall|i: int| 0 <= i < used ==> mem.ppm.registry@[i] == 1)
                        &&& (forall|i: int|
                            used <= i < n ==> #[trigger] mem.ppm.registry@[i] <= 1)
                        &&& tcr_tg0(mem.tcr.bits) == 2
                        &&& tcr_tg1(mem.tcr.bits) == 1
                        &&& tcr_t0sz(mem.tcr.bits) == T0_T1_SZ
                        &&& tcr_t1sz(mem.tcr.bits) == T0_T1_SZ
                        &&& !tcr_ds(mem.tcr.bits)
                    })
                },
            }
        }),
{
    let (ram_start, ram_len) = match dram_node.get_reg(fdt) {
        Ok((specified_ram_start, specified_ram_len)) => (specified_ram_start, specified_ram_len),
        Err(e) => {
            return Err(MemoryError::RAMFDTNodeGetRegFailed(e));
        },
    };
    proof {
        assert(reg_decodes_to(dram_node, fdt, ram_start, ram_len));
    }
    let (mut ppm, kernel_mem_end) = match init_ppm(static_kernel_mem_end, ram_start, ram_len) {
        Ok(pair) => pair,
        Err(e) => {
            return Err(MemoryError::PPMInitFailed(e));
        },
    };
    proof {
        lemma_pow2_consts();
        let p = PAGE_LEN as int;
        let se = static_kernel_mem_end as int;
        let total = ram_start as int + ram_len as int;
        let n = total / p;
        let sp = (se - 1) / p + 1;
        let rp = (n + p - 1) / p;
        let u = sp + rp;
        assert(n * p <= total && sp * p >= se && rp >= 0 && (u * p) % p == 0 && sp * p <= u * p
            && u * p <= n * p) by (nonlinear_arith)
            requires
                p == 16384,
                total >= 0,
                se >= 1,
                n == total / p,
                sp == (se - 1) / p + 1,
                rp == (n + p - 1) / p,
                u == sp + rp,
                u <= n,
        ;
        assert(kernel_mem_end == u * p);
    }
    let mut root0 = RootTable::new();
    let mut root1 = RootTable::new();
    let ghost reg_pre = ppm.registry@;
    let ghost root0_fresh = root0;
    let ghost root1_fresh = root1;
    proof {
        assert(all_leaves_strict(root0));
        assert(all_leaves_strict(root1));
    }
    if let Err(e) = bootstrap_kernel_page_tables(
        dtb_start,
        dtb_end,
        ram_start,
        ram_len,
        kernel_mem_end,
        &mut root0,
        &mut root1,
        &mut ppm,
    ) {
        proof {
            // The roots were empty, so no page could have been mapped
            // elsewhere: a bootstrap failure is genuine frame exhaustion.
            if e == PTMError::VAAlreadyMapped {
                assert(forall|va: u64| #[trigger] crate::ptm::walk(root0_fresh, va) is None);
                assert(forall|va: u64| #[trigger] crate::ptm::walk(root1_fresh, va) is None);
                assert(false);
            }
        }
        return Err(MemoryError::KernelPTBootStrapFailed(e));
    }
    proof {
        // The pre-reserved frames stay at exactly one reference: the
        // bootstrap only flips free counters to 1.
        assert forall|i: int| 0 <= i < (kernel_mem_end as int) / (PAGE_LEN as int) implies
            ppm.registry@[i] == 1 by {
            assert(reg_pre[i] == 1);
        }
    }
    let mut mem = MemoryState {
        ram_start,
        ram_len,
        kernel_mem_end,
        mmu_enabled: false,
        ppm,
        root0,
        root1,
        tcr: TcrEl1::new(),
    };
    let tcr = TcrEl1::new().with_tg0(0b10).with_tg1(0b01).with_ds(false).with_t0sz(
        T0_T1_SZ,
    ).with_t1sz(T0_T1_SZ);
    enable_mmu(&mut mem, tcr);
    Ok(mem)
}

} // verus!
