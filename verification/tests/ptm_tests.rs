//! Page-table construction: idempotent mapping, conflict reporting, walk
//! correctness, frame accounting, and the bootstrap's failure mode on a
//! machine that is too small.

use jerry::memory::PAGE_LEN;
use jerry::ppm::{PPMError, Ppm};
use jerry::ptm::{
    bootstrap_kernel_page_tables, map_mmio_range, map_page_to_va, resolve_va, PTMError, RootTable,
};

fn fresh_ppm(frames: usize) -> Ppm {
    Ppm { registry: vec![0u8; frames] }
}

#[test]
fn map_page_to_va_is_idempotent() {
    let mut root = RootTable::new();
    let mut ppm = fresh_ppm(64);
    let pa = 3 * PAGE_LEN;
    let va = 5 * PAGE_LEN;
    assert_eq!(map_page_to_va(&mut root, &mut ppm, pa, va, false).unwrap(), pa);
    let tree_snapshot = root.clone();
    let registry_snapshot = ppm.registry.clone();
    // The second identical call returns the page again and leaves the
    // tree byte-identical.
    assert_eq!(map_page_to_va(&mut root, &mut ppm, pa, va, false).unwrap(), pa);
    assert_eq!(root, tree_snapshot);
    assert_eq!(ppm.registry, registry_snapshot);
}

#[test]
fn map_page_to_va_reports_prior_mapping_on_conflict() {
    let mut root = RootTable::new();
    let mut ppm = fresh_ppm(64);
    let p1 = 3 * PAGE_LEN;
    let p2 = 7 * PAGE_LEN;
    let va = 9 * PAGE_LEN;
    assert_eq!(map_page_to_va(&mut root, &mut ppm, p1, va, false).unwrap(), p1);
    // Mapping the same address elsewhere with overwrite off reports the
    // resolved prior page, not the new one.
    assert_eq!(map_page_to_va(&mut root, &mut ppm, p2, va, false).unwrap(), p1);
    assert_eq!(resolve_va(&root, va), Some(p1));
}

#[test]
fn map_page_to_va_overwrite_replaces_leaf_in_place() {
    let mut root = RootTable::new();
    let mut ppm = fresh_ppm(64);
    let p1 = 3 * PAGE_LEN;
    let p2 = 7 * PAGE_LEN;
    let va = 9 * PAGE_LEN;
    map_page_to_va(&mut root, &mut ppm, p1, va, false).unwrap();
    let registry_snapshot = ppm.registry.clone();
    assert_eq!(map_page_to_va(&mut root, &mut ppm, p2, va, true).unwrap(), p2);
    assert_eq!(resolve_va(&root, va), Some(p2));
    // Replacing the leaf touches no reference count.
    assert_eq!(ppm.registry, registry_snapshot);
}

#[test]
fn walking_the_descriptors_reaches_the_mapped_page() {
    let mut root = RootTable::new();
    let mut ppm = fresh_ppm(64);
    // An address with non-zero index at each level.
    let va: u64 = (3 << 36) | (17 << 25) | (9 << 14);
    let pa: u64 = 21 * PAGE_LEN;
    assert_eq!(map_page_to_va(&mut root, &mut ppm, pa, va, false).unwrap(), pa);
    let l1 = ((va >> 36) & 0x7) as usize;
    let l2 = ((va >> 25) & 0x7FF) as usize;
    let l3 = ((va >> 14) & 0x7FF) as usize;
    // L1: a valid table descriptor naming the L2 frame.
    let d1 = root.entries[l1];
    assert!(d1.valid_bit() && d1.table_descriptor());
    let l2_node = root.children[l1].as_ref().unwrap();
    assert_eq!(d1.nlta() << 14, l2_node.pa);
    // L2: a valid table descriptor naming the L3 frame.
    let d2 = l2_node.entries[l2];
    assert!(d2.valid_bit() && d2.table_descriptor());
    let l3_node = l2_node.children[l2].as_ref().unwrap();
    assert_eq!(d2.nlta() << 14, l3_node.pa);
    // L3: a valid page descriptor with the access flag, whose output
    // address bits name the mapped page.
    let leaf = l3_node.entries[l3];
    assert!(leaf.valid_bit() && leaf.descriptor_type() && leaf.af());
    assert_eq!(leaf.oab() << 14, pa & !(PAGE_LEN - 1));
    // The leaf is exactly valid | page | AF | OAB: no stray bit is set.
    assert_eq!(leaf.bits, 0x403 | ((pa >> 14) << 14));
}

#[test]
fn repeat_map_leaves_ref_counts_alone() {
    let mut root = RootTable::new();
    let mut ppm = fresh_ppm(64);
    let pa = 11 * PAGE_LEN;
    let va = 13 * PAGE_LEN;
    map_page_to_va(&mut root, &mut ppm, pa, va, false).unwrap();
    let registry_snapshot = ppm.registry.clone();
    for _ in 0..10 {
        assert_eq!(map_page_to_va(&mut root, &mut ppm, pa, va, false).unwrap(), pa);
    }
    assert_eq!(ppm.registry, registry_snapshot);
}

#[test]
fn map_allocates_table_frames_from_the_registry() {
    let mut root = RootTable::new();
    let mut ppm = fresh_ppm(64);
    map_page_to_va(&mut root, &mut ppm, 5 * PAGE_LEN, 6 * PAGE_LEN, false).unwrap();
    // A fresh walk needs an L2 and an L3 table: the two lowest free
    // frames are taken, the mapped page's own count is untouched.
    assert_eq!(ppm.registry[0], 1);
    assert_eq!(ppm.registry[1], 1);
    assert_eq!(ppm.registry[5], 0);
    let total: u64 = ppm.registry.iter().map(|&c| c as u64).sum();
    assert_eq!(total, 2);
}

#[test]
fn map_fails_with_no_free_pages_when_tables_cannot_be_allocated() {
    let mut root = RootTable::new();
    // Every frame is already reserved.
    let mut ppm = Ppm { registry: vec![1u8; 8] };
    let r = map_page_to_va(&mut root, &mut ppm, 0, PAGE_LEN, false);
    assert_eq!(r.unwrap_err(), PTMError::GetFreePageFailed(PPMError::NoFreePages));
    assert_eq!(ppm.registry, vec![1u8; 8]);
    assert_eq!(resolve_va(&root, PAGE_LEN), None);
}

#[test]
fn bootstrap_identity_maps_kernel_and_linear_maps_ram() {
    let mut root0 = RootTable::new();
    let mut root1 = RootTable::new();
    // 64 frames of RAM at physical 0; the first 4 reserved.
    let mut ppm = Ppm { registry: vec![0u8; 64] };
    for i in 0..4 {
        ppm.registry[i] = 1;
    }
    let ram_start = 0;
    let ram_len = 64 * PAGE_LEN;
    let kernel_mem_end = 4 * PAGE_LEN;
    bootstrap_kernel_page_tables(0, 0, ram_start, ram_len, kernel_mem_end, &mut root0, &mut root1,
        &mut ppm).unwrap();
    for i in 0..4u64 {
        assert_eq!(resolve_va(&root0, i * PAGE_LEN), Some(i * PAGE_LEN));
    }
    // Pages past the kernel image are not identity-mapped.
    assert_eq!(resolve_va(&root0, 40 * PAGE_LEN), None);
    for i in 0..64u64 {
        assert_eq!(resolve_va(&root1, i * PAGE_LEN - ram_start), Some(i * PAGE_LEN));
    }
}

#[test]
fn bootstrap_out_of_memory_bubbles_up() {
    let mut root0 = RootTable::new();
    let mut root1 = RootTable::new();
    // Three frames, two already reserved, one free: the first mapping
    // needs two table frames and runs the allocator dry.
    let mut ppm = Ppm { registry: vec![1, 1, 0] };
    let r = bootstrap_kernel_page_tables(0, 0, 0, 3 * PAGE_LEN, 2 * PAGE_LEN, &mut root0,
        &mut root1, &mut ppm);
    assert_eq!(r.unwrap_err(), PTMError::GetFreePageFailed(PPMError::NoFreePages));
    // The failure is genuine exhaustion: the one free frame went to the
    // L2 table before the L3 allocation ran dry.
    assert_eq!(ppm.registry.iter().filter(|&&c| c == 0).count(), 0);
}

#[test]
fn bootstrap_is_idempotent_once_everything_is_mapped() {
    let mut root0 = RootTable::new();
    let mut root1 = RootTable::new();
    let mut ppm = Ppm { registry: vec![0u8; 64] };
    for i in 0..4 {
        ppm.registry[i] = 1;
    }
    bootstrap_kernel_page_tables(0, 0, 0, 64 * PAGE_LEN, 4 * PAGE_LEN, &mut root0, &mut root1,
        &mut ppm).unwrap();
    let root0_snapshot = root0.clone();
    let root1_snapshot = root1.clone();
    let registry_snapshot = ppm.registry.clone();
    // Running the bootstrap again finds every page already mapped to
    // itself and changes nothing.
    bootstrap_kernel_page_tables(0, 0, 0, 64 * PAGE_LEN, 4 * PAGE_LEN, &mut root0, &mut root1,
        &mut ppm).unwrap();
    assert_eq!(root0, root0_snapshot);
    assert_eq!(root1, root1_snapshot);
    assert_eq!(ppm.registry, registry_snapshot);
}

#[test]
fn mmio_range_is_identity_mapped_inclusive_of_last_page() {
    let mut root0 = RootTable::new();
    let mut ppm = fresh_ppm(64);
    // A range inside one page maps exactly that page.
    map_mmio_range(&mut root0, &mut ppm, 0x09000000, 0x1000).unwrap();
    assert_eq!(resolve_va(&root0, 0x09000000), Some(0x09000000));
    assert_eq!(resolve_va(&root0, 0x09004000), None);
    // A range whose end lands on a page boundary covers the page holding
    // that boundary too.
    map_mmio_range(&mut root0, &mut ppm, 0x0a000000, 0x4000).unwrap();
    assert_eq!(resolve_va(&root0, 0x0a000000), Some(0x0a000000));
    assert_eq!(resolve_va(&root0, 0x0a004000), Some(0x0a004000));
    assert_eq!(resolve_va(&root0, 0x0a008000), None);
}

#[test]
fn remapping_an_mmio_range_allocates_nothing() {
    let mut root0 = RootTable::new();
    let mut ppm = fresh_ppm(64);
    map_mmio_range(&mut root0, &mut ppm, 0x09000000, 0x1000).unwrap();
    let tree_snapshot = root0.clone();
    let registry_snapshot = ppm.registry.clone();
    map_mmio_range(&mut root0, &mut ppm, 0x09000000, 0x1000).unwrap();
    assert_eq!(root0, tree_snapshot);
    assert_eq!(ppm.registry, registry_snapshot);
}
