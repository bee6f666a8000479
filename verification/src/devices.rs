//! Device bring-up: scan the device tree, initialise memory from the
//! unique `memory@` node first, then walk the tree again and bring up
//! every recognised device — the PL011 UART and VirtIO MMIO devices.
//!
//! The hardware side of a VirtIO probe is the register file at the
//! node's `reg` address; the model carries those register files in a
//! list of slots keyed by physical address, which stands for the MMIO
//! bus the volatile accessors would touch.

use vstd::prelude::*;

use crate::fdt::{
    dtb_total_size, fdt_magic_ok, libfdt_lite_init, prop_lookup, reg_decodes_to, reg_spec,
    be_bytes_to_int, FDTError, FDTNode, LibFdt,
};
use crate::memory::{init_memory, MemoryError, MemoryState, PAGE_LEN};
use crate::ppm::{num_free, Ppm, PPMError};
use crate::ptm::{
    all_leaves_strict, ident_mapped, ident_mapped_af, lemma_flips_trans, lemma_pow2_consts,
    linear_mapped, linear_mapped_af, reg_flips, root_frames_reserved, root_wf, walk, PTMError,
    RootTable,
};
use crate::types::JerryMetaData;
use crate::uart::{init_pl011_uart, PL011Error, PL011Writer};
use crate::virtio::{
    interrupt_id_spec, interrupts_name, setup_virtio_device, VirtIOBlk, VirtIOBlkConfig,
    VirtIOBlkGeometry, VirtIOBlkTopology, VirtIODevice, VirtIOError, VirtIORegs,
};

verus! {

#[derive(Clone, Copy, PartialEq, Eq, Structural, Debug)]
pub enum DeviceInitError {
    LibFDTInitFailed(FDTError),
    FDTItrNewFailed(FDTError),
    MemoryDeviceNotFound,
    SearchForMemoryDeviceFailed(FDTError),
    MemoryInitFailed(MemoryError),
    VirtIOSetup(VirtIOError),
    PL011Setup(PL011Error),
}

/// One VirtIO MMIO device on the bus: the physical address its node's
/// `reg` names, the register file a read there returns, and the block
/// configuration area that trails it.
#[derive(Debug)]
pub struct VirtIOSlot {
    pub pa: u64,
    pub regs: VirtIORegs,
    pub config: VirtIOBlkConfig,
}

/// Everything bring-up produces: the initialised façade, the memory
/// state with the MMU on, the UART if one was found, and the accepted
/// VirtIO devices.
#[derive(Debug)]
pub struct BootOutcome {
    pub fdt: LibFdt,
    pub memory: MemoryState,
    pub uart: Option<PL011Writer>,
    pub virtio_devices: Vec<VirtIODevice>,
}

/// The bytes of "memory@".
pub open spec fn memory_prefix() -> Seq<u8> {
    seq![109u8, 101u8, 109u8, 111u8, 114u8, 121u8, 64u8]
}

/// The bytes of "virtio_mmio".
pub open spec fn virtio_prefix() -> Seq<u8> {
    seq![118u8, 105u8, 114u8, 116u8, 105u8, 111u8, 95u8, 109u8, 109u8, 105u8, 111u8]
}

/// The bytes of "pl011".
pub open spec fn pl011_prefix() -> Seq<u8> {
    seq![112u8, 108u8, 48u8, 49u8, 49u8]
}

/// `s` starts with `p`.
pub open spec fn has_prefix(s: Seq<u8>, p: Seq<u8>) -> bool {
    p.len() <= s.len() && s.take(p.len() as int) == p
}

/// The node's name read successfully and begins with "memory@".
pub open spec fn is_memory_node(n: FDTNode) -> bool {
    n.name is Ok && has_prefix(n.name->Ok_0@, memory_prefix())
}

/// The node's name read successfully and begins with "virtio_mmio".
pub open spec fn is_virtio_node(n: FDTNode) -> bool {
    n.name is Ok && has_prefix(n.name->Ok_0@, virtio_prefix())
}

/// The node's name read successfully and begins with "pl011".
pub open spec fn is_pl011_node(n: FDTNode) -> bool {
    n.name is Ok && has_prefix(n.name->Ok_0@, pl011_prefix())
}

/// Executable prefix test matching `has_prefix`.
fn name_has_prefix(v: &Vec<u8>, p: &[u8]) -> (r: bool)
    ensures
        r == has_prefix(v@, p@),
{
    if p.len() > v.len() {
        return false;
    }
    let n = p.len();
    let mut i: usize = 0;
    while i < n
        invariant
            n == p@.len(),
            n <= v@.len(),
            0 <= i <= n,
            forall|j: int| 0 <= j < i ==> v@[j] == p@[j],
        decreases n - i,
    {
        if v[i] != p[i] {
            proof {
                assert(v@.take(n as int)[i as int] != p@[i as int]);
            }
            return false;
        }
        i += 1;
    }
    proof {
        assert(v@.take(n as int) =~= p@);
    }
    true
}

/// The cell counts the façade's initialisation derives from the header
/// and the root node, when it succeeds.
pub open spec fn fdt_cells(header: Seq<u8>, root: FDTNode) -> Option<(int, int)> {
    if !fdt_magic_ok(header) {
        None
    } else {
        let sc = prop_lookup(
            root.properties@,
            seq![35u8, 115u8, 105u8, 122u8, 101u8, 45u8, 99u8, 101u8, 108u8, 108u8, 115u8],
        );
        let ac = prop_lookup(
            root.properties@,
            seq![
                35u8,
                97u8,
                100u8,
                100u8,
                114u8,
                101u8,
                115u8,
                115u8,
                45u8,
                99u8,
                101u8,
                108u8,
                108u8,
                115u8,
            ],
        );
        match (sc, ac) {
            (Some(sv), Some(av)) => if sv.len() == 4 && av.len() == 4 {
                Some((be_bytes_to_int(av), be_bytes_to_int(sv)))
            } else {
                None
            },
            _ => None,
        }
    }
}

/// The façade value bring-up works with once initialisation succeeded.
pub open spec fn fdt_of(meta: JerryMetaData, header: Seq<u8>, root: FDTNode) -> LibFdt {
    let c = fdt_cells(header, root)->Some_0;
    LibFdt {
        dtb_start: meta.kernel_dtb_start,
        address_cells: c.0 as usize,
        size_cells: c.1 as usize,
    }
}

/// The machine invariants bring-up relies on, for whatever the node
/// properties decode to: the kernel image sits inside the RAM the
/// `memory@` node names, RAM and every MMIO range lie below the 39-bit
/// horizon, interrupt cells are well formed, and every VirtIO node's
/// register file is present on the bus.
pub open spec fn boot_env_ok(
    meta: JerryMetaData,
    f: LibFdt,
    nodes: Seq<FDTNode>,
    slots: Seq<VirtIOSlot>,
) -> bool {
    &&& (forall|i: int, rs: u64, rl: u64|
        0 <= i < nodes.len() && is_memory_node(nodes[i]) && #[trigger] reg_decodes_to(
            &nodes[i],
            &f,
            rs,
            rl,
        ) ==> rs % PAGE_LEN == 0 && rs <= meta.kernel_text_end && meta.kernel_text_end <= rs + rl
            && rs + rl <= 0x80_0000_0000u64 && (rs + rl) / (PAGE_LEN as int) <= usize::MAX)
    &&& (forall|i: int, a: u64, s: u64|
        0 <= i < nodes.len() && is_pl011_node(nodes[i]) && #[trigger] reg_decodes_to(
            &nodes[i],
            &f,
            a,
            s,
        ) ==> a + s < (1u64 << 39u64))
    &&& (forall|i: int|
        0 <= i < nodes.len() && is_virtio_node(#[trigger] nodes[i]) ==> match prop_lookup(
            nodes[i].properties@,
            interrupts_name(),
        ) {
            Some(v) => v.len() >= 8 && interrupt_id_spec(v) <= u32::MAX,
            None => true,
        })
    &&& (forall|k: int|
        0 <= k < slots.len() ==> #[trigger] slots[k].config.capacity * slots[k].config.blk_size
            <= u64::MAX)
    &&& (forall|i: int, a: u64, s: u64|
        0 <= i < nodes.len() && is_virtio_node(nodes[i]) && #[trigger] reg_decodes_to(
            &nodes[i],
            &f,
            a,
            s,
        ) ==> exists|k: int| 0 <= k < slots.len() && #[trigger] slots[k].pa == a)
}

/// A placeholder slot used to take a real slot out of the bus vector
/// while its registers are mutated.
fn empty_slot() -> (r: VirtIOSlot)
    ensures
        r.pa == 0,
{
    VirtIOSlot {
        pa: 0,
        regs: VirtIORegs {
            magic_value: 0,
            version: 0,
            device_id: 0,
            vendor_id: 0,
            device_features: 0,
            device_features_sel: 0,
            reserved0: [0, 0],
            driver_features: 0,
            driver_features_sel: 0,
            reserved1: [0, 0],
            queue_sel: 0,
            queue_num_max: 0,
            queue_num: 0,
            reserved2: [0, 0],
            queue_ready: 0,
            reserved3: [0, 0],
            queue_notify: 0,
            reserved4: [0, 0, 0],
            interrupt_status: 0,
            interrupt_ack: 0,
            reserved5: [0, 0],
            status: 0,
            reserved6: [0, 0, 0],
            queue_desc_low: 0,
            queue_desc_high: 0,
            reserved7: [0, 0],
            queue_avail_low: 0,
            queue_avail_high: 0,
            reserved8: [0, 0],
            queue_used_low: 0,
            queue_used_high: 0,
            reserved9: [0, 0, 0, 0, 0, 0, 0, 0, 0, 0, 0, 0, 0, 0, 0, 0, 0, 0, 0, 0, 0],
            config_generation: 0,
        },
        config: VirtIOBlkConfig {
            capacity: 0,
            size_max: 0,
            seg_max: 0,
            geometry: VirtIOBlkGeometry { cylinders: 0, heads: 0, sectors: 0 },
            blk_size: 0,
            topology: VirtIOBlkTopology {
                physical_block_exp: 0,
                alignment_offset: 0,
                min_io_size: 0,
                opt_io_size: 0,
            },
            writeback: 0,
        },
    }
}

/// Walk every node after the root and bring up each recognised device:
/// a `pl011*` node becomes the UART (its MMIO range is identity-mapped
/// and its registers derived), a `virtio_mmio*` node is probed on the
/// bus, and anything else — including a node whose name cannot be read —
/// is skipped.  A VirtIO device of an unsupported type is skipped too;
/// any other device failure aborts the scan.
pub fn call_device_inits(
    fdt: &LibFdt,
    nodes: &Vec<FDTNode>,
    root0: &mut RootTable,
    ppm: &mut Ppm,
    slots: &mut Vec<VirtIOSlot>,
) -> (r: Result<(Option<PL011Writer>, Vec<VirtIODevice>), DeviceInitError>)
    requires
        root_wf(*old(root0)),
        root_frames_reserved(*old(root0), old(ppm).registry@),
        old(ppm).registry@.len() * (PAGE_LEN as int) <= (1u64 << 48u64),
        ({
            // Machine invariants for the devices this scan may touch.
            &&& (forall|i: int, a: u64, s: u64|
                0 <= i < nodes@.len() && is_pl011_node(nodes@[i]) && #[trigger] reg_decodes_to(
                    &nodes@[i],
                    fdt,
                    a,
                    s,
                ) ==> a + s < (1u64 << 39u64))
            &&& (forall|i: int|
                0 <= i < nodes@.len() && is_virtio_node(#[trigger] nodes@[i]) ==> match prop_lookup(
                    nodes@[i].properties@,
                    interrupts_name(),
                ) {
                    Some(v) => v.len() >= 8 && interrupt_id_spec(v) <= u32::MAX,
                    None => true,
                })
            &&& (forall|k: int|
                0 <= k < old(slots)@.len() ==> #[trigger] old(slots)@[k].config.capacity * old(
                    slots,
                )@[k].config.blk_size <= u64::MAX)
            &&& (forall|i: int, a: u64, s: u64|
                0 <= i < nodes@.len() && is_virtio_node(nodes@[i]) && #[trigger] reg_decodes_to(
                    &nodes@[i],
                    fdt,
                    a,
                    s,
                ) ==> exists|k: int| 0 <= k < old(slots)@.len() && #[trigger] old(slots)@[k].pa
                    == a)
        }),
    ensures
        root_wf(*final(root0)),
        root_frames_reserved(*final(root0), final(ppm).registry@),
        reg_flips(old(ppm).registry@, final(ppm).registry@),
        forall|va2: u64|
            walk(*old(root0), va2) is Some ==> #[trigger] walk(*final(root0), va2) == walk(
                *old(root0),
                va2,
            ),
        final(slots)@.len() == old(slots)@.len(),
        forall|k: int|
            0 <= k < old(slots)@.len() ==> #[trigger] final(slots)@[k].pa == old(slots)@[k].pa,
        forall|k: int|
            0 <= k < old(slots)@.len() ==> #[trigger] final(slots)@[k].config == old(
                slots,
            )@[k].config,
        r is Err ==> r->Err_0 is VirtIOSetup || r->Err_0 is PL011Setup,
        r is Ok ==> (match r->Ok_0.0 {
            Some(w) => w.data_reg == w.address && w.flag_reg == w.address + 0x18u64,
            None => true,
        }),
        r is Ok && (exists|i: int| 1 <= i < nodes@.len() && is_pl011_node(#[trigger] nodes@[i]))
            ==> r->Ok_0.0 is Some,
        (forall|i: int|
            1 <= i < nodes@.len() ==> !is_virtio_node(#[trigger] nodes@[i]) && !is_pl011_node(
                nodes@[i],
            )) ==> r is Ok && *final(root0) == *old(root0) && final(ppm).registry@ == old(
            ppm,
        ).registry@ && final(slots)@ == old(slots)@,
        r is Err && r->Err_0 is VirtIOSetup ==> r->Err_0->VirtIOSetup_0
            != VirtIOError::UnsupportedDeviceType,
        r is Err && r->Err_0 is VirtIOSetup ==> (exists|i: int|
            1 <= i < nodes@.len() && #[trigger] is_virtio_node(nodes@[i])),
        r is Err && r->Err_0 is PL011Setup ==> (exists|i: int|
            1 <= i < nodes@.len() && #[trigger] is_pl011_node(nodes@[i])),
        r is Err && r->Err_0 is PL011Setup ==> (r->Err_0->PL011Setup_0 is GetRegsFailed || r
            ->Err_0->PL011Setup_0 == PL011Error::MapMMIORangeFailed(PTMError::VAAlreadyMapped) || r
            ->Err_0->PL011Setup_0 == PL011Error::MapMMIORangeFailed(
            PTMError::GetFreePageFailed(PPMError::NoFreePages),
        )),
        r == Err::<(Option<PL011Writer>, Vec<VirtIODevice>), DeviceInitError>(
            DeviceInitError::PL011Setup(
                PL011Error::MapMMIORangeFailed(PTMError::GetFreePageFailed(PPMError::NoFreePages)),
            ),
        ) ==> num_free(final(ppm).registry@) <= 1,
        forall|k: int|
            0 <= k < old(slots)@.len() ==> #[trigger] final(slots)@[k].regs == old(
                slots,
            )@[k].regs || (final(slots)@[k].regs.status == 3 && final(slots)@[k].regs.magic_value
                == old(slots)@[k].regs.magic_value && final(slots)@[k].regs.version == old(
                slots,
            )@[k].regs.version && final(slots)@[k].regs.device_id == old(
                slots,
            )@[k].regs.device_id && final(slots)@[k].regs.config_generation == old(
                slots,
            )@[k].regs.config_generation),
        r is Ok ==> (forall|j: int|
            0 <= j < r->Ok_0.1@.len() ==> #[trigger] r->Ok_0.1@[j] == (VirtIODevice::Block(
                VirtIOBlk { size_bytes: 0 },
            ))),
        all_leaves_strict(*old(root0)) ==> all_leaves_strict(*final(root0)),
{
    let ghost root00 = *root0;
    let ghost reg00 = ppm.registry@;
    let ghost slots00 = slots@;
    let mut uart: Option<PL011Writer> = None;
    let mut devices: Vec<VirtIODevice> = Vec::new();
    // The property-name prefixes as bytes: "virtio_mmio" and "pl011".
    let virtio_name: [u8; 11] = [118, 105, 114, 116, 105, 111, 95, 109, 109, 105, 111];
    let pl011_name: [u8; 5] = [112, 108, 48, 49, 49];
    proof {
        assert(virtio_name@ =~= virtio_prefix());
        assert(pl011_name@ =~= pl011_prefix());
    }
    let n = nodes.len();
    // The underlying reader's cursor starts at the root, so the scan
    // visits every node after it.
    let mut idx: usize = 1;
    while idx < n
        invariant
            n == nodes@.len(),
            1 <= idx,
            virtio_name@ == virtio_prefix(),
            pl011_name@ == pl011_prefix(),
            root_wf(*root0),
            root_frames_reserved(*root0, ppm.registry@),
            reg_flips(reg00, ppm.registry@),
            reg00 == old(ppm).registry@,
            root00 == *old(root0),
            slots00 == old(slots)@,
            reg00.len() * (PAGE_LEN as int) <= (1u64 << 48u64),
            ppm.registry@.len() == reg00.len(),
            forall|va2: u64|
                walk(root00, va2) is Some ==> #[trigger] walk(*root0, va2) == walk(root00, va2),
            slots@.len() == slots00.len(),
            forall|k: int| 0 <= k < slots00.len() ==> #[trigger] slots@[k].pa == slots00[k].pa,
            forall|k: int|
                0 <= k < slots00.len() ==> #[trigger] slots@[k].config == slots00[k].config,
            (forall|i: int, a: u64, s: u64|
                0 <= i < nodes@.len() && is_pl011_node(nodes@[i]) && #[trigger] reg_decodes_to(
                    &nodes@[i],
                    fdt,
                    a,
                    s,
                ) ==> a + s < (1u64 << 39u64)),
            (forall|i: int|
                0 <= i < nodes@.len() && is_virtio_node(#[trigger] nodes@[i]) ==> match prop_lookup(
                    nodes@[i].properties@,
                    interrupts_name(),
                ) {
                    Some(v) => v.len() >= 8 && interrupt_id_spec(v) <= u32::MAX,
                    None => true,
                }),
            (forall|k: int|
                0 <= k < slots00.len() ==> #[trigger] slots00[k].config.capacity
                    * slots00[k].config.blk_size <= u64::MAX),
            (forall|i: int, a: u64, s: u64|
                0 <= i < nodes@.len() && is_virtio_node(nodes@[i]) && #[trigger] reg_decodes_to(
                    &nodes@[i],
                    fdt,
                    a,
                    s,
                ) ==> exists|k: int| 0 <= k < slots00.len() && #[trigger] slots00[k].pa == a),
            match uart {
                Some(w) => w.data_reg == w.address && w.flag_reg == w.address + 0x18u64,
                None => true,
            },
            (exists|i: int| 1 <= i < idx && is_pl011_node(#[trigger] nodes@[i])) ==> uart
                is Some,
            (forall|i: int|
                1 <= i < nodes@.len() ==> !is_virtio_node(#[trigger] nodes@[i]) && !is_pl011_node(
                    nodes@[i],
                )) ==> *root0 == root00 && ppm.registry@ == reg00 && slots@ == slots00,
            forall|k: int|
                0 <= k < slots00.len() ==> #[trigger] slots@[k].regs == slots00[k].regs || (
                slots@[k].regs.status == 3 && slots@[k].regs.magic_value
                    == slots00[k].regs.magic_value && slots@[k].regs.version
                    == slots00[k].regs.version && slots@[k].regs.device_id
                    == slots00[k].regs.device_id && slots@[k].regs.config_generation
                    == slots00[k].regs.config_generation),
            forall|j: int|
                0 <= j < devices@.len() ==> #[trigger] devices@[j] == (VirtIODevice::Block(
                    VirtIOBlk { size_bytes: 0 },
                )),
            all_leaves_strict(root00) ==> all_leaves_strict(*root0),
        decreases n - idx,
    {
        let node = &nodes[idx];
        let name = match node.get_name() {
            Ok(name) => name,
            Err(_e) => {
                // An unreadable name is reported on the console and the
                // scan goes on.
                idx += 1;
                continue ;
            },
        };
        if name_has_prefix(name, virtio_name.as_slice()) {
            let (addr, _size) = match node.get_reg(fdt) {
                Ok(pair) => pair,
                Err(e) => {
                    return Err(DeviceInitError::VirtIOSetup(VirtIOError::GetRegsFailed(e)));
                },
            };
            proof {
                assert(is_virtio_node(nodes@[idx as int]));
                assert(reg_decodes_to(&nodes@[idx as int], fdt, addr, _size));
                // A name beginning with "virtio_mmio" does not begin with
                // "pl011": the first bytes differ.
                if is_pl011_node(nodes@[idx as int]) {
                    let nm = nodes@[idx as int].name->Ok_0@;
                    assert(nm.take(11)[0] == nm[0]);
                    assert(nm.take(5)[0] == nm[0]);
                    assert(false);
                }
            }
            // Find the register file the node's address names.
            let m = slots.len();
            let mut k: usize = 0;
            let mut found: bool = false;
            while k < m
                invariant
                    m == slots@.len(),
                    0 <= k <= m,
                    !found ==> forall|j: int| 0 <= j < k ==> slots@[j].pa != addr,
                    found ==> k < m && slots@[k as int].pa == addr,
                decreases m - k + (if found { 0int } else { 1int }),
            {
                if found {
                    break ;
                }
                if slots[k].pa == addr {
                    found = true;
                } else {
                    k += 1;
                }
            }
            if !found {
                proof {
                    let ghost w = choose|j: int|
                        0 <= j < slots00.len() && #[trigger] slots00[j].pa == addr;
                    assert(slots@[w].pa == addr);
                }
                // Unreachable: the bus holds a slot for every VirtIO node.
                idx += 1;
                continue ;
            }
            let ghost slots_before = slots@;
            let mut taken = empty_slot();
            slots.set_and_swap(k, &mut taken);
            let res = setup_virtio_device(node, fdt, &mut taken.regs, &taken.config);
            slots.set_and_swap(k, &mut taken);
            proof {
                assert(slots@[k as int].pa == slots_before[k as int].pa && slots@[k as int].config
                    == slots_before[k as int].config);
                assert(forall|j: int|
                    0 <= j < slots@.len() && j != k ==> slots@[j] == slots_before[j]);
                assert(1u32 | 2u32 == 3u32) by (bit_vector);
                let rk0 = slots_before[k as int].regs;
                let rk1 = slots@[k as int].regs;
                assert(rk1 == rk0 || (rk1.status == 3 && rk1.magic_value == rk0.magic_value
                    && rk1.version == rk0.version && rk1.device_id == rk0.device_id
                    && rk1.config_generation == rk0.config_generation));
                assert forall|kk: int| 0 <= kk < slots00.len() implies #[trigger] slots@[kk].regs
                    == slots00[kk].regs || (slots@[kk].regs.status == 3
                    && slots@[kk].regs.magic_value == slots00[kk].regs.magic_value
                    && slots@[kk].regs.version == slots00[kk].regs.version
                    && slots@[kk].regs.device_id == slots00[kk].regs.device_id
                    && slots@[kk].regs.config_generation
                    == slots00[kk].regs.config_generation) by {
                    if kk != k as int {
                        assert(slots@[kk] == slots_before[kk]);
                    }
                }
            }
            match res {
                Ok(virtio_device) => {
                    devices.push(virtio_device);
                },
                Err(VirtIOError::UnsupportedDeviceType) => {
                    // Not a device this kernel drives: skip it, the scan
                    // goes on.
                },
                Err(e) => {
                    return Err(DeviceInitError::VirtIOSetup(e));
                },
            }
        } else if name_has_prefix(name, pl011_name.as_slice()) {
            proof {
                assert(is_pl011_node(nodes@[idx as int]));
            }
            let ghost root_i = *root0;
            let ghost reg_i = ppm.registry@;
            match init_pl011_uart(node, fdt, root0, ppm) {
                Ok(writer) => {
                    proof {
                        lemma_flips_trans(reg00, reg_i, ppm.registry@);
                        assert forall|va2: u64| walk(root00, va2) is Some implies #[trigger] walk(
                            *root0,
                            va2,
                        ) == walk(root00, va2) by {
                            assert(walk(root_i, va2) == walk(root00, va2));
                        }
                    }
                    uart = Some(writer);
                },
                Err(e) => {
                    proof {
                        lemma_flips_trans(reg00, reg_i, ppm.registry@);
                        assert forall|va2: u64| walk(root00, va2) is Some implies #[trigger] walk(
                            *root0,
                            va2,
                        ) == walk(root00, va2) by {
                            assert(walk(root_i, va2) == walk(root00, va2));
                        }
                    }
                    return Err(DeviceInitError::PL011Setup(e));
                },
            }
        } else {
            // Unknown nodes are ignored.
        }
        idx += 1;
    }
    Ok((uart, devices))
}

/// Bring the machine up from the device tree: initialise the façade at
/// the DTB the entry stub handed over, derive the blob's end from its
/// big-endian `totalsize` word, find the unique `memory@` node and
/// initialise memory from it, then bring up the remaining devices.  A
/// tree without a memory node is a hard failure, `MemoryDeviceNotFound`.
pub fn init_devices(
    kernel_meta_data: &JerryMetaData,
    dtb_header: &Vec<u8>,
    nodes: &Vec<FDTNode>,
    virtio_slots: &mut Vec<VirtIOSlot>,
) -> (r: Result<BootOutcome, DeviceInitError>)
    requires
        nodes@.len() >= 1,
        kernel_meta_data.kernel_text_end >= 1,
        kernel_meta_data.kernel_dtb_start % PAGE_LEN == 0,
        kernel_meta_data.kernel_dtb_start + 0x1_0000_0000u64 <= 0x80_0000_0000u64,
        fdt_cells(dtb_header@, nodes@[0]) is Some ==> boot_env_ok(
            *kernel_meta_data,
            fdt_of(*kernel_meta_data, dtb_header@, nodes@[0]),
            nodes@,
            old(virtio_slots)@,
        ),
    ensures
        !fdt_magic_ok(dtb_header@) ==> r == Err::<BootOutcome, DeviceInitError>(
            DeviceInitError::LibFDTInitFailed(FDTError::BadMagic),
        ),
        fdt_cells(dtb_header@, nodes@[0]) is None ==> r is Err && (r->Err_0 is LibFDTInitFailed),
        fdt_cells(dtb_header@, nodes@[0]) is Some ==> !(r is Err && (r->Err_0 is LibFDTInitFailed
            || r->Err_0 is FDTItrNewFailed)),
        r == Err::<BootOutcome, DeviceInitError>(DeviceInitError::MemoryDeviceNotFound) ==> forall|
            i: int,
        |
            1 <= i < nodes@.len() ==> #[trigger] nodes@[i].name is Ok && !is_memory_node(
                nodes@[i],
            ),
        r is Err && (r->Err_0 is MemoryInitFailed || r->Err_0 is VirtIOSetup || r->Err_0
            is PL011Setup) ==> exists|i: int|
            1 <= i < nodes@.len() && is_memory_node(#[trigger] nodes@[i]),
        r is Err && r->Err_0 is SearchForMemoryDeviceFailed ==> exists|i: int|
            1 <= i < nodes@.len() && #[trigger] nodes@[i].name is Err && nodes@[i].name->Err_0
                == r->Err_0->SearchForMemoryDeviceFailed_0 && (forall|j: int|
                1 <= j < i ==> #[trigger] nodes@[j].name is Ok && !is_memory_node(nodes@[j])),
        fdt_cells(dtb_header@, nodes@[0]) is Some && (forall|i: int|
            1 <= i < nodes@.len() ==> #[trigger] nodes@[i].name is Ok && !is_memory_node(
                nodes@[i],
            )) ==> r == Err::<BootOutcome, DeviceInitError>(DeviceInitError::MemoryDeviceNotFound),
        r is Err && r->Err_0 is MemoryInitFailed ==> (r->Err_0->MemoryInitFailed_0
            is RAMFDTNodeGetRegFailed || r->Err_0->MemoryInitFailed_0
            == MemoryError::PPMInitFailed(PPMError::InvalidPageIdxRange) || r
            ->Err_0->MemoryInitFailed_0 == MemoryError::KernelPTBootStrapFailed(
            PTMError::GetFreePageFailed(PPMError::NoFreePages),
        )),
        r is Err && r->Err_0 is VirtIOSetup ==> r->Err_0->VirtIOSetup_0
            != VirtIOError::UnsupportedDeviceType,
        r is Err && r->Err_0 is PL011Setup ==> (r->Err_0->PL011Setup_0 is GetRegsFailed || r
            ->Err_0->PL011Setup_0 == PL011Error::MapMMIORangeFailed(PTMError::VAAlreadyMapped) || r
            ->Err_0->PL011Setup_0 == PL011Error::MapMMIORangeFailed(
            PTMError::GetFreePageFailed(PPMError::NoFreePages),
        )),
        r is Err && r->Err_0 is VirtIOSetup ==> (exists|i: int|
            1 <= i < nodes@.len() && #[trigger] is_virtio_node(nodes@[i])),
        r is Err && r->Err_0 is PL011Setup ==> (exists|i: int|
            1 <= i < nodes@.len() && #[trigger] is_pl011_node(nodes@[i])),
        r is Ok ==> ({
            let out = r->Ok_0;
            let dtb_start = kernel_meta_data.kernel_dtb_start;
            let dtb_end = dtb_start + be_bytes_to_int(dtb_header@.subrange(4, 8));
            &&& out.fdt.dtb_start == dtb_start
            &&& out.memory.mmu_enabled
            &&& root_wf(out.memory.root0)
            &&& root_wf(out.memory.root1)
            &&& root_frames_reserved(out.memory.root0, out.memory.ppm.registry@)
            &&& root_frames_reserved(out.memory.root1, out.memory.ppm.registry@)
            &&& ident_mapped(out.memory.root0, dtb_start, dtb_end as u64)
            &&& ident_mapped(out.memory.root0, out.memory.ram_start, out.memory.kernel_mem_end)
            &&& linear_mapped(
                out.memory.root1,
                out.memory.ram_start,
                out.memory.ram_start,
                (out.memory.ram_start + out.memory.ram_len) as u64,
            )
            &&& (exists|i: int|
                1 <= i < nodes@.len() && #[trigger] is_memory_node(nodes@[i]) && reg_spec(
                    &nodes@[i],
                    &out.fdt,
                ) == Ok::<(u64, u64), FDTError>((out.memory.ram_start, out.memory.ram_len)) && (
                forall|j: int|
                    1 <= j < i ==> #[trigger] nodes@[j].name is Ok && !is_memory_node(
                        nodes@[j],
                    )))
            &&& ((exists|i: int| 1 <= i < nodes@.len() && is_pl011_node(#[trigger] nodes@[i]))
                ==> out.uart is Some)
            &&& all_leaves_strict(out.memory.root0)
            &&& all_leaves_strict(out.memory.root1)
            &&& ident_mapped_af(out.memory.root0, dtb_start, dtb_end as u64)
            &&& ident_mapped_af(out.memory.root0, out.memory.ram_start, out.memory.kernel_mem_end)
            &&& linear_mapped_af(
                out.memory.root1,
                out.memory.ram_start,
                out.memory.ram_start,
                (out.memory.ram_start + out.memory.ram_len) as u64,
            )
        }),
{
    let fdt = match libfdt_lite_init(kernel_meta_data.kernel_dtb_start, dtb_header, &nodes[0]) {
        Ok(f) => f,
        Err(e) => {
            return Err(DeviceInitError::LibFDTInitFailed(e));
        },
    };
    proof {
        assert(fdt_cells(dtb_header@, nodes@[0]) is Some);
        assert(fdt == fdt_of(*kernel_meta_data, dtb_header@, nodes@[0]));
    }
    // The blob is permitted to sit at physical 0, so its length is read
    // by offset rather than through a header record.
    let dtb_total = dtb_total_size(dtb_header);
    proof {
        crate::fdt::lemma_be_bytes_bound(dtb_header@.subrange(4, 8));
        reveal_with_fuel(crate::fdt::pow256, 5);
        lemma_pow2_consts();
    }
    let kernel_dtb_end: u64 = kernel_meta_data.kernel_dtb_start + dtb_total;
    let n = nodes.len();
    // Memory comes up before anything else: every other device needs the
    // MMIO mapping path, which needs the allocator and the tables.
    let mut idx: usize = 1;
    // The bytes of "memory@".
    let memory_name: [u8; 7] = [109, 101, 109, 111, 114, 121, 64];
    proof {
        assert(memory_name@ =~= memory_prefix());
    }
    while idx < n
        invariant
            n == nodes@.len(),
            nodes@.len() >= 1,
            1 <= idx,
            memory_name@ == memory_prefix(),
            kernel_meta_data.kernel_text_end >= 1,
            kernel_meta_data.kernel_dtb_start % PAGE_LEN == 0,
            kernel_meta_data.kernel_dtb_start <= kernel_dtb_end,
            kernel_dtb_end <= 0x80_0000_0000u64,
            kernel_dtb_end == kernel_meta_data.kernel_dtb_start + be_bytes_to_int(
                dtb_header@.subrange(4, 8),
            ),
            fdt_cells(dtb_header@, nodes@[0]) is Some,
            fdt == fdt_of(*kernel_meta_data, dtb_header@, nodes@[0]),
            virtio_slots@ == old(virtio_slots)@,
            boot_env_ok(*kernel_meta_data, fdt, nodes@, old(virtio_slots)@),
            forall|j: int|
                1 <= j < idx ==> #[trigger] nodes@[j].name is Ok && !is_memory_node(nodes@[j]),
        decreases n - idx,
    {
        let node = &nodes[idx];
        let name = match node.get_name() {
            Ok(name) => name,
            Err(e) => {
                proof {
                    assert(nodes@[idx as int].name is Err && nodes@[idx as int].name->Err_0 == e);
                }
                return Err(DeviceInitError::SearchForMemoryDeviceFailed(e));
            },
        };
        if name_has_prefix(name, memory_name.as_slice()) {
            proof {
                assert(is_memory_node(nodes@[idx as int]));
            }
            let mem = match init_memory(
                node,
                &fdt,
                kernel_meta_data.kernel_text_end,
                kernel_meta_data.kernel_dtb_start,
                kernel_dtb_end,
            ) {
                Ok(mem) => mem,
                Err(e) => {
                    return Err(DeviceInitError::MemoryInitFailed(e));
                },
            };
            let MemoryState {
                ram_start,
                ram_len,
                kernel_mem_end,
                mmu_enabled,
                mut ppm,
                mut root0,
                root1,
                tcr,
            } = mem;
            let ghost root_m = root0;
            let ghost reg_m = ppm.registry@;
            proof {
                lemma_pow2_consts();
                let regr = reg_spec(&nodes@[idx as int], &fdt);
                assert(regr is Ok);
                let (rs, rl) = regr->Ok_0;
                assert(ram_start == rs && ram_len == rl);
                assert(reg_decodes_to(&nodes@[idx as int], &fdt, rs, rl));
                let p = PAGE_LEN as int;
                let total = rs as int + rl as int;
                assert((total / p) * p <= total) by (nonlinear_arith)
                    requires
                        p == 16384,
                        total >= 0,
                ;
            }
            match call_device_inits(&fdt, nodes, &mut root0, &mut ppm, virtio_slots) {
                Ok((uart, virtio_devices)) => {
                    proof {
                        assert forall|q: u64|
                            kernel_meta_data.kernel_dtb_start <= q < kernel_dtb_end && q % PAGE_LEN
                                == 0 implies #[trigger] crate::ptm::resolves(root0, q) == Some(
                            q,
                        ) by {
                            assert(crate::ptm::resolves(root_m, q) == Some(q));
                            assert(walk(root_m, q) is Some);
                        }
                        assert forall|q: u64|
                            ram_start <= q < kernel_mem_end && q % PAGE_LEN == 0 implies #[trigger]
                        crate::ptm::resolves(root0, q) == Some(q) by {
                            assert(crate::ptm::resolves(root_m, q) == Some(q));
                            assert(walk(root_m, q) is Some);
                        }
                        // The exact leaves the bootstrap installed also
                        // survive the device scan: their walks were Some.
                        assert forall|q: u64|
                            kernel_meta_data.kernel_dtb_start <= q < kernel_dtb_end && q % PAGE_LEN
                                == 0 implies #[trigger] walk(root0, q) == Some(
                            crate::ttd::PageDescriptorS1 {
                                bits: crate::ptm::page_leaf_bits(q),
                            },
                        ) by {
                            assert(walk(root_m, q) == Some(
                                crate::ttd::PageDescriptorS1 {
                                    bits: crate::ptm::page_leaf_bits(q),
                                },
                            ));
                            assert(walk(root_m, q) is Some);
                        }
                        assert forall|q: u64|
                            ram_start <= q < kernel_mem_end && q % PAGE_LEN == 0 implies #[trigger]
                        walk(root0, q) == Some(
                            crate::ttd::PageDescriptorS1 { bits: crate::ptm::page_leaf_bits(q) },
                        ) by {
                            assert(walk(root_m, q) == Some(
                                crate::ttd::PageDescriptorS1 {
                                    bits: crate::ptm::page_leaf_bits(q),
                                },
                            ));
                            assert(walk(root_m, q) is Some);
                        }
                        crate::ptm::lemma_reserved_monotone(root1, reg_m, ppm.registry@);
                    }
                    return Ok(
                        BootOutcome {
                            fdt,
                            memory: MemoryState {
                                ram_start,
                                ram_len,
                                kernel_mem_end,
                                mmu_enabled,
                                ppm,
                                root0,
                                root1,
                                tcr,
                            },
                            uart,
                            virtio_devices,
                        },
                    );
                },
                Err(e) => {
                    return Err(e);
                },
            }
        }
        idx += 1;
    }
    Err(DeviceInitError::MemoryDeviceNotFound)
}

} // verus!
