//! Frame-registry behaviour: initial reservation, reference counting,
//! saturation, range atomicity, and conservation of the count total.

use jerry::memory::PAGE_LEN;
use jerry::ppm::{
    decrement_ref_count, decrement_ref_count_range, free_page_ref, get_free_page,
    get_num_phys_pages, get_page, increment_ref_count, increment_ref_count_range, init_ppm,
    pa_to_page_idx, pa_to_page_idx_mut, page_idx_to_pa, page_idx_to_pa_mut, PPMError, Ppm,
};

#[test]
fn init_ppm_reserves_kernel_and_registry_frames() {
    // The S1 geometry: kernel image ends at 0x40080000 in 128 MiB of RAM
    // based at 0x40000000.
    let (ppm, end) = init_ppm(0x40080000, 0x40000000, 0x08000000).unwrap();
    let n_frames = (0x40000000u64 + 0x08000000) / PAGE_LEN;
    assert_eq!(ppm.registry.len() as u64, n_frames);
    assert_eq!(n_frames, 73728);
    let static_pages = (0x40080000u64 - 1) / PAGE_LEN + 1;
    let registry_pages = (n_frames + PAGE_LEN - 1) / PAGE_LEN;
    let used = static_pages + registry_pages;
    assert_eq!(used, 65573);
    for i in 0..used as usize {
        assert_eq!(ppm.registry[i], 1);
    }
    for i in used as usize..n_frames as usize {
        assert_eq!(ppm.registry[i], 0);
    }
    assert_eq!(end, used * PAGE_LEN);
    assert_eq!(get_num_phys_pages(&ppm), 73728);
}

#[test]
fn init_ppm_rejects_machine_too_small() {
    // RAM of one page cannot hold the kernel image plus the registry.
    let r = init_ppm(PAGE_LEN, 0, PAGE_LEN);
    assert_eq!(r.unwrap_err(), PPMError::InvalidPageIdxRange);
}

#[test]
fn get_page_saturates_at_255() {
    let mut ppm = Ppm { registry: vec![0u8; 4] };
    for _ in 0..255 {
        assert_eq!(get_page(&mut ppm, 1).unwrap(), PAGE_LEN);
    }
    assert_eq!(ppm.registry[1], 255);
    // The 256th acquisition fails and the counter does not move.
    assert_eq!(get_page(&mut ppm, 1).unwrap_err(), PPMError::PageHasMaxReferences);
    assert_eq!(ppm.registry[1], 255);
}

#[test]
fn get_page_rejects_out_of_range_index() {
    let mut ppm = Ppm { registry: vec![0u8; 4] };
    assert_eq!(get_page(&mut ppm, 4).unwrap_err(), PPMError::PageIdxOutOfRange);
    assert_eq!(ppm.registry, vec![0u8; 4]);
}

#[test]
fn refcount_total_tracks_net_acquisitions() {
    let mut ppm = Ppm { registry: vec![0u8; 8] };
    let sum = |p: &Ppm| p.registry.iter().map(|&c| c as u64).sum::<u64>();
    assert_eq!(sum(&ppm), 0);
    let pa = get_free_page(&mut ppm, false).unwrap();
    assert_eq!(pa, 0);
    assert_eq!(sum(&ppm), 1);
    get_page(&mut ppm, 3).unwrap();
    get_page(&mut ppm, 3).unwrap();
    assert_eq!(sum(&ppm), 3);
    assert_eq!(free_page_ref(&mut ppm, 3 * PAGE_LEN).unwrap(), 1);
    assert_eq!(sum(&ppm), 2);
    // A failing release changes nothing.
    assert_eq!(free_page_ref(&mut ppm, 5 * PAGE_LEN).unwrap_err(), PPMError::PageHasNoReferences);
    assert_eq!(sum(&ppm), 2);
}

#[test]
fn get_free_page_hands_out_lowest_free_frame() {
    let mut ppm = Ppm { registry: vec![2, 1, 0, 0] };
    assert_eq!(get_free_page(&mut ppm, true).unwrap(), 2 * PAGE_LEN);
    assert_eq!(ppm.registry, vec![2, 1, 1, 0]);
    assert_eq!(get_free_page(&mut ppm, false).unwrap(), 3 * PAGE_LEN);
    assert_eq!(get_free_page(&mut ppm, false).unwrap_err(), PPMError::NoFreePages);
    assert_eq!(ppm.registry, vec![2, 1, 1, 1]);
}

#[test]
fn increment_range_is_atomic_on_saturation() {
    let mut ppm = Ppm { registry: vec![1, 255, 0] };
    let r = increment_ref_count_range(&mut ppm, 2, 0);
    assert_eq!(r.unwrap_err(), PPMError::PageHasMaxReferences);
    // The whole range was checked before any counter moved.
    assert_eq!(ppm.registry, vec![1, 255, 0]);
}

#[test]
fn increment_range_bumps_whole_range() {
    let mut ppm = Ppm { registry: vec![0, 1, 2, 3] };
    increment_ref_count_range(&mut ppm, 2, 1).unwrap();
    assert_eq!(ppm.registry, vec![0, 2, 3, 3]);
}

#[test]
fn increment_range_rejects_bad_bounds() {
    let mut ppm = Ppm { registry: vec![0, 0] };
    assert_eq!(increment_ref_count_range(&mut ppm, 0, 1).unwrap_err(),
        PPMError::InvalidPageIdxRange);
    assert_eq!(increment_ref_count_range(&mut ppm, 2, 0).unwrap_err(),
        PPMError::InvalidPageIdxRange);
    assert_eq!(ppm.registry, vec![0, 0]);
}

#[test]
fn decrement_range_is_atomic_on_free_frame() {
    let mut ppm = Ppm { registry: vec![2, 0, 2] };
    let r = decrement_ref_count_range(&mut ppm, 2, 0);
    assert_eq!(r.unwrap_err(), PPMError::PageHasNoReferences);
    assert_eq!(ppm.registry, vec![2, 0, 2]);
}

#[test]
fn decrement_range_drops_whole_range() {
    let mut ppm = Ppm { registry: vec![2, 3, 4] };
    decrement_ref_count_range(&mut ppm, 2, 0).unwrap();
    assert_eq!(ppm.registry, vec![1, 2, 3]);
}

#[test]
fn increment_and_decrement_report_new_count() {
    let mut ppm = Ppm { registry: vec![5, 0] };
    assert_eq!(increment_ref_count(&mut ppm, 0).unwrap(), 6);
    assert_eq!(decrement_ref_count(&mut ppm, 0).unwrap(), 5);
    assert_eq!(decrement_ref_count(&mut ppm, 1).unwrap_err(), PPMError::PageHasNoReferences);
    assert_eq!(increment_ref_count(&mut ppm, 7).unwrap_err(), PPMError::PageIdxOutOfRange);
}

#[test]
fn frame_index_address_conversions() {
    assert_eq!(page_idx_to_pa(3), 3 * PAGE_LEN);
    assert_eq!(pa_to_page_idx(3 * PAGE_LEN + 5), 3);
    assert_eq!(page_idx_to_pa_mut(7), 7 * PAGE_LEN);
    assert_eq!(pa_to_page_idx_mut(0x40000000), 0x40000000 / PAGE_LEN);
}

#[test]
fn expected_free_page_guard_never_fires() {
    // The post-condition guard of the free-page scan is unreachable: a
    // frame observed free always acquires to exactly one reference.
    let mut ppm = Ppm { registry: vec![1, 0, 1] };
    let r = get_free_page(&mut ppm, true);
    assert!(!matches!(r, Err(PPMError::ExpectedFreePageHasReferences)));
    assert_eq!(r.unwrap(), PAGE_LEN);
}
