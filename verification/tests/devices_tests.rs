//! End-to-end bring-up scenarios: the QEMU virt machine, MMIO late
//! mapping, the UART's first byte, VirtIO rejection, and the failure
//! paths of the device scan.

use jerry::devices::{call_device_inits, init_devices, BootOutcome, DeviceInitError, VirtIOSlot};
use jerry::fdt::{FDTError, FDTNode, FDTProperty, LibFdt};
use jerry::memory::{MemoryError, PAGE_LEN};
use jerry::ppm::{PPMError, Ppm};
use jerry::ptm::{resolve_va, map_mmio_range, PTMError, RootTable};
use jerry::types::JerryMetaData;
use jerry::uart::{init_pl011_uart, tx_fifo_full, write_str};
use jerry::virtio::{
    setup_block_device, setup_virtio_device, VirtIOBlkConfig, VirtIOBlkGeometry,
    VirtIOBlkTopology, VirtIODevice, VirtIOError, VirtIORegs,
};

fn prop(name: &[u8], value: &[u8]) -> FDTProperty {
    FDTProperty { name: name.to_vec(), value: value.to_vec() }
}

fn node(name: &[u8], properties: Vec<FDTProperty>) -> FDTNode {
    FDTNode { name: Ok(name.to_vec()), properties }
}

fn root_node() -> FDTNode {
    node(
        b"",
        vec![
            prop(b"#size-cells", &[0, 0, 0, 2]),
            prop(b"#address-cells", &[0, 0, 0, 2]),
        ],
    )
}

fn reg16(addr: u64, size: u64) -> Vec<u8> {
    let mut v = addr.to_be_bytes().to_vec();
    v.extend_from_slice(&size.to_be_bytes());
    v
}

fn memory_node() -> FDTNode {
    node(b"memory@40000000", vec![prop(b"reg", &reg16(0x40000000, 0x08000000))])
}

fn pl011_node() -> FDTNode {
    node(b"pl011@9000000", vec![prop(b"reg", &reg16(0x09000000, 0x1000))])
}

fn virtio_node() -> FDTNode {
    node(
        b"virtio_mmio@a000000",
        vec![
            prop(b"reg", &reg16(0x0a000000, 0x200)),
            prop(b"interrupts", &[0, 0, 0, 1, 0, 0, 0, 0x10]),
        ],
    )
}

fn virtio_regs(magic: u32, version: u32, device_id: u32) -> VirtIORegs {
    VirtIORegs {
        magic_value: magic,
        version,
        device_id,
        vendor_id: 0x554d4551,
        device_features: 0,
        device_features_sel: 0,
        reserved0: [0, 0],
        driver_features: 0,
        driver_features_sel: 0,
        reserved1: [0, 0],
        queue_sel: 0,
        queue_num_max: 0,
        queue_num: 0,
        reserved2: [0, 0],
        queue_ready: 0,
        reserved3: [0, 0],
        queue_notify: 0,
        reserved4: [0, 0, 0],
        interrupt_status: 0,
        interrupt_ack: 0,
        reserved5: [0, 0],
        status: 0x77,
        reserved6: [0, 0, 0],
        queue_desc_low: 0,
        queue_desc_high: 0,
        reserved7: [0, 0],
        queue_avail_low: 0,
        queue_avail_high: 0,
        reserved8: [0, 0],
        queue_used_low: 0,
        queue_used_high: 0,
        reserved9: [0; 21],
        config_generation: 7,
    }
}

fn blk_config(capacity: u64, blk_size: u32) -> VirtIOBlkConfig {
    VirtIOBlkConfig {
        capacity,
        size_max: 0,
        seg_max: 0,
        geometry: VirtIOBlkGeometry { cylinders: 0, heads: 0, sectors: 0 },
        blk_size,
        topology: VirtIOBlkTopology {
            physical_block_exp: 0,
            alignment_offset: 0,
            min_io_size: 0,
            opt_io_size: 0,
        },
        writeback: 0,
    }
}

fn block_slot() -> VirtIOSlot {
    VirtIOSlot { pa: 0x0a000000, regs: virtio_regs(0x74726976, 2, 2), config: blk_config(8, 512) }
}

fn qemu_virt_meta() -> JerryMetaData {
    JerryMetaData {
        kernel_dtb_start: 0x47F00000,
        kernel_init_sp: 0x40100000,
        kernel_bss_start: 0x40060000,
        kernel_bss_end: 0x40070000,
        kernel_bin_start: 0x40000000,
        kernel_rodata_start: 0x40010000,
        kernel_rodata_end: 0x40020000,
        kernel_text_start: 0x40020000,
        kernel_text_end: 0x40080000,
    }
}

fn dtb_header() -> Vec<u8> {
    vec![0xd0, 0x0d, 0xfe, 0xed, 0x00, 0x00, 0x10, 0x00]
}

fn qemu_virt_bring_up() -> BootOutcome {
    let meta = qemu_virt_meta();
    let header = dtb_header();
    let nodes = vec![root_node(), memory_node(), pl011_node(), virtio_node()];
    let mut slots = vec![block_slot()];
    init_devices(&meta, &header, &nodes, &mut slots).unwrap()
}

#[test]
fn qemu_virt_bring_up_initialises_memory_and_devices() {
    let out = qemu_virt_bring_up();
    assert_eq!(out.memory.ram_start, 0x40000000);
    assert_eq!(out.memory.ram_len, 0x08000000);
    assert!(out.memory.mmu_is_enabled());
    // The registry spans all frames up to the end of RAM; the kernel
    // image and the registry's own five frames are pre-reserved.
    assert_eq!(out.memory.ppm.registry.len(), 73728);
    let used = 0x40080000 / PAGE_LEN + 5;
    assert_eq!(out.memory.kernel_mem_end, used * PAGE_LEN);
    assert_eq!(out.memory.ppm.registry[(used - 1) as usize], 1);
    // All kernel pages are identity-mapped in the low half.
    let root0 = out.memory.get_kernel_root_table_0();
    assert_eq!(resolve_va(root0, 0x40000000), Some(0x40000000));
    assert_eq!(resolve_va(root0, out.memory.kernel_mem_end - PAGE_LEN),
        Some(out.memory.kernel_mem_end - PAGE_LEN));
    // The DTB is identity-mapped.
    assert_eq!(resolve_va(root0, 0x47F00000), Some(0x47F00000));
    // All 128 MiB of RAM are mapped in the high half at offset 0.
    let root1 = out.memory.get_kernel_root_table_1();
    assert_eq!(resolve_va(root1, 0), Some(0x40000000));
    assert_eq!(resolve_va(root1, 0x08000000 - PAGE_LEN), Some(0x47FFC000));
    // The UART came up at its MMIO base; the block device was accepted.
    let uart = out.uart.as_ref().unwrap();
    assert_eq!(uart.address, 0x09000000);
    assert_eq!(uart.data_reg, 0x09000000);
    assert_eq!(uart.flag_reg, 0x09000018);
    assert_eq!(out.virtio_devices.len(), 1);
    assert!(matches!(out.virtio_devices[0], VirtIODevice::Block(_)));
}

#[test]
fn mmio_late_map_installs_single_leaf_without_new_frames() {
    let mut out = qemu_virt_bring_up();
    // The UART range is already mapped: repeating it allocates nothing.
    let registry_snapshot = out.memory.ppm.registry.clone();
    map_mmio_range(&mut out.memory.root0, &mut out.memory.ppm, 0x09000000, 0x1000).unwrap();
    assert_eq!(out.memory.ppm.registry, registry_snapshot);
    assert_eq!(resolve_va(&out.memory.root0, 0x09000000), Some(0x09000000));
    // A range whose L3 table is absent allocates exactly one frame for
    // it; the L2 on that path is shared with the kernel's identity map.
    map_mmio_range(&mut out.memory.root0, &mut out.memory.ppm, 0x30000000, 0x1000).unwrap();
    let flips: Vec<usize> = (0..registry_snapshot.len()).filter(|&i| {
        out.memory.ppm.registry[i] != registry_snapshot[i]
    }).collect();
    assert_eq!(flips.len(), 1);
    assert_eq!(resolve_va(&out.memory.root0, 0x30000000), Some(0x30000000));
    // A range under an untouched L1 slot allocates exactly one L2 and
    // one L3 table.
    let registry_snapshot2 = out.memory.ppm.registry.clone();
    map_mmio_range(&mut out.memory.root0, &mut out.memory.ppm, 0x10_0000_0000, 0x1000).unwrap();
    let flips2 = (0..registry_snapshot2.len()).filter(|&i| {
        out.memory.ppm.registry[i] != registry_snapshot2[i]
    }).count();
    assert_eq!(flips2, 2);
}

#[test]
fn uart_first_byte_polls_flag_then_stores_word() {
    let out = qemu_virt_bring_up();
    let mut uart = out.uart.unwrap();
    // Transmit-FIFO-full is bit 5 of the flag register.
    assert!(tx_fifo_full(1 << 5));
    assert!(tx_fifo_full(0xFF));
    assert!(!tx_fifo_full(0xDF));
    assert!(!tx_fifo_full(0));
    // With bit 5 clear the byte 'J' goes out as one 32-bit word.
    jerry::uart::write(&mut uart, 0x4A);
    assert_eq!(uart.output, vec![0x4A_u32]);
}

#[test]
fn uart_write_str_turns_line_feed_into_cr_lf() {
    let out = qemu_virt_bring_up();
    let mut uart = out.uart.unwrap();
    write_str(&mut uart, "a\nb");
    assert_eq!(uart.output, vec![97, 13, 10, 98]);
    write_str(&mut uart, "\n");
    assert_eq!(uart.output, vec![97, 13, 10, 98, 13, 10]);
}

#[test]
fn unsupported_virtio_device_is_skipped_and_scan_continues() {
    let fdt = LibFdt { dtb_start: 0, address_cells: 2, size_cells: 2 };
    // Device id 3 is not a block device; the scan must still reach the
    // UART node after it.
    let nodes = vec![root_node(), virtio_node(), pl011_node()];
    let mut root0 = RootTable::new();
    let mut ppm = Ppm { registry: vec![0u8; 64] };
    let mut slots = vec![VirtIOSlot {
        pa: 0x0a000000,
        regs: virtio_regs(0x74726976, 2, 3),
        config: blk_config(8, 512),
    }];
    let (uart, devices) =
        call_device_inits(&fdt, &nodes, &mut root0, &mut ppm, &mut slots).unwrap();
    assert!(devices.is_empty());
    assert!(uart.is_some());
    // The handshake ran before the device type was inspected.
    assert_eq!(slots[0].regs.status, 3);
}

#[test]
fn virtio_probe_validates_magic_and_version() {
    let fdt = LibFdt { dtb_start: 0, address_cells: 2, size_cells: 2 };
    let n = virtio_node();
    let cfg = blk_config(8, 512);
    let mut bad_magic = virtio_regs(0xdeadbeef, 2, 2);
    assert_eq!(setup_virtio_device(&n, &fdt, &mut bad_magic, &cfg).unwrap_err(),
        VirtIOError::WrongMagicValue);
    assert_eq!(bad_magic.status, 0x77);
    let mut bad_version = virtio_regs(0x74726976, 1, 2);
    assert_eq!(setup_virtio_device(&n, &fdt, &mut bad_version, &cfg).unwrap_err(),
        VirtIOError::UnsupportedVersion);
    let mut ok = virtio_regs(0x74726976, 2, 2);
    assert_eq!(setup_virtio_device(&n, &fdt, &mut ok, &cfg).unwrap(),
        VirtIODevice::Block(jerry::virtio::VirtIOBlk { size_bytes: 0 }));
    // Reset, then ACKNOWLEDGE, then DRIVER.
    assert_eq!(ok.status, 3);
}

#[test]
fn virtio_probe_needs_reg_and_interrupts() {
    let fdt = LibFdt { dtb_start: 0, address_cells: 2, size_cells: 2 };
    let cfg = blk_config(8, 512);
    let mut regs = virtio_regs(0x74726976, 2, 2);
    let no_reg = node(b"virtio_mmio@a000000", vec![prop(b"interrupts", &[0; 8])]);
    assert_eq!(setup_virtio_device(&no_reg, &fdt, &mut regs, &cfg).unwrap_err(),
        VirtIOError::GetRegsFailed(FDTError::NotFound));
    let no_ints = node(b"virtio_mmio@a000000", vec![prop(b"reg", &reg16(0x0a000000, 0x200))]);
    assert_eq!(setup_virtio_device(&no_ints, &fdt, &mut regs, &cfg).unwrap_err(),
        VirtIOError::GetInterruptIDFailed(FDTError::NotFound));
}

#[test]
fn block_device_capacity_is_sectors_times_sector_size() {
    let regs = virtio_regs(0x74726976, 2, 2);
    let cfg = blk_config(8, 512);
    assert_eq!(setup_block_device(&regs, &cfg, 48).unwrap(), 4096);
}

#[test]
fn missing_memory_node_is_a_hard_failure() {
    let meta = qemu_virt_meta();
    let header = dtb_header();
    let nodes = vec![root_node(), pl011_node()];
    let mut slots = vec![];
    let r = init_devices(&meta, &header, &nodes, &mut slots);
    let e = match r {
        Err(e) => e,
        Ok(_) => panic!("bring-up succeeded without a memory node"),
    };
    assert_eq!(e, DeviceInitError::MemoryDeviceNotFound);
}

#[test]
fn unreadable_name_aborts_the_memory_search() {
    let meta = qemu_virt_meta();
    let header = dtb_header();
    let broken = FDTNode { name: Err(FDTError::BadOffset), properties: vec![] };
    let nodes = vec![root_node(), broken, memory_node()];
    let mut slots = vec![];
    let r = init_devices(&meta, &header, &nodes, &mut slots);
    let e = match r {
        Err(e) => e,
        Ok(_) => panic!("bring-up succeeded past an unreadable name"),
    };
    assert_eq!(e, DeviceInitError::SearchForMemoryDeviceFailed(FDTError::BadOffset));
}

#[test]
fn bad_dtb_magic_fails_initialisation() {
    let meta = qemu_virt_meta();
    let header = vec![0u8; 8];
    let nodes = vec![root_node(), memory_node()];
    let mut slots = vec![];
    let r = init_devices(&meta, &header, &nodes, &mut slots);
    let e = match r {
        Err(e) => e,
        Ok(_) => panic!("bring-up accepted a blob without the magic"),
    };
    assert_eq!(e, DeviceInitError::LibFDTInitFailed(FDTError::BadMagic));
}

#[test]
fn memory_node_without_reg_fails_memory_init() {
    let meta = qemu_virt_meta();
    let header = dtb_header();
    let bare_memory = node(b"memory@40000000", vec![]);
    let nodes = vec![root_node(), bare_memory];
    let mut slots = vec![];
    let r = init_devices(&meta, &header, &nodes, &mut slots);
    let e = match r {
        Err(e) => e,
        Ok(_) => panic!("bring-up accepted a memory node without reg"),
    };
    assert_eq!(e, DeviceInitError::MemoryInitFailed(
        MemoryError::RAMFDTNodeGetRegFailed(FDTError::NotFound)));
}

#[test]
fn too_small_a_machine_runs_out_of_frames_during_bootstrap() {
    // Three frames of RAM at physical 0: one kernel page, one registry
    // page, one free frame — not enough for the L2 and L3 tables the
    // first mapping needs.
    let meta = JerryMetaData { kernel_dtb_start: 0, kernel_text_end: 1, ..qemu_virt_meta() };
    let header = dtb_header();
    let tiny_memory = node(b"memory@0", vec![prop(b"reg", &reg16(0, 3 * PAGE_LEN))]);
    let nodes = vec![root_node(), tiny_memory];
    let mut slots = vec![];
    let r = init_devices(&meta, &header, &nodes, &mut slots);
    let e = match r {
        Err(e) => e,
        Ok(_) => panic!("bring-up succeeded on a machine too small"),
    };
    assert_eq!(e, DeviceInitError::MemoryInitFailed(
        MemoryError::KernelPTBootStrapFailed(
            PTMError::GetFreePageFailed(PPMError::NoFreePages))));
}

#[test]
fn pl011_without_reg_fails_uart_setup() {
    let fdt = LibFdt { dtb_start: 0, address_cells: 2, size_cells: 2 };
    let bare = node(b"pl011@9000000", vec![]);
    let mut root0 = RootTable::new();
    let mut ppm = Ppm { registry: vec![0u8; 16] };
    let r = init_pl011_uart(&bare, &fdt, &mut root0, &mut ppm);
    assert!(matches!(r, Err(jerry::uart::PL011Error::GetRegsFailed(FDTError::NotFound))));
}
