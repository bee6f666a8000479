//! Bit-exact descriptor layouts, the bit-field helpers, and the TCR
//! register image.

use jerry::memory::{ram_va_to_pa, pa_to_ram_va, TcrEl1, TTBR1_MASK};
use jerry::ttd::{
    nlta_to_pa, oab_to_pa, pa_to_nlta, pa_to_oab, BlockDescriptorS1, PageDescriptorS1,
    TableDescriptorS1,
};
use jerry::types::{get_bits, n_bits, set_bits};

#[test]
fn table_descriptor_builder_sets_exact_bits() {
    let d = TableDescriptorS1::new()
        .with_valid_bit(true)
        .with_table_descriptor(true)
        .with_nlta(pa_to_nlta(0x40000000));
    // valid (bit 0) | table (bit 1) | NLTA at bits 47:14.
    assert_eq!(d.bits, 0x4000_0003);
    assert!(d.valid_bit());
    assert!(d.table_descriptor());
    assert_eq!(d.nlta(), 0x40000000 >> 14);
    assert_eq!(nlta_to_pa(d.nlta()), 0x40000000);
}

#[test]
fn table_descriptor_new_is_invalid() {
    let d = TableDescriptorS1::new();
    assert_eq!(d.bits, 0);
    assert!(!d.valid_bit());
    assert!(!d.table_descriptor());
}

#[test]
fn page_descriptor_builder_sets_exact_bits() {
    let d = PageDescriptorS1::new()
        .with_valid_bit(true)
        .with_descriptor_type(true)
        .with_oab(pa_to_oab(0x0900_4000))
        .with_af(true);
    // valid | page | AF (bit 10) | OAB at bits 47:14.
    assert_eq!(d.bits, 0x0900_4000 | 0x400 | 0x3);
    assert!(d.valid_bit());
    assert!(d.descriptor_type());
    assert!(d.af());
    assert_eq!(oab_to_pa(d.oab()), 0x0900_4000);
}

#[test]
fn page_descriptor_fields_are_independent() {
    let d = PageDescriptorS1::new().with_af(true).with_valid_bit(true);
    let d2 = d.with_af(false);
    assert!(d2.valid_bit());
    assert!(!d2.af());
    assert_eq!(d2.bits, 1);
}

#[test]
fn block_descriptor_oab_sits_at_bit_25() {
    let d = BlockDescriptorS1 { bits: (0x5u64 << 25) | 0x1 };
    assert!(d.valid_bit());
    assert!(!d.descriptor_type());
    assert_eq!(d.oab(), 0x5);
}

#[test]
fn bit_helpers_compute_masks_and_fields() {
    assert_eq!(n_bits(5), 63);
    assert_eq!(n_bits(0), 1);
    assert_eq!(get_bits(0xABCD, 15, 8), 0xAB);
    assert_eq!(get_bits(0x40000000, 38, 36), 0);
    assert_eq!(get_bits(0x40000000, 35, 25), 0x20);
    let mut v: u64 = 0xFFFF;
    set_bits(&mut v, 0x3, 11, 8);
    assert_eq!(v, 0xF3FF);
}

#[test]
fn tcr_register_image_matches_field_layout() {
    let tcr = TcrEl1::new()
        .with_tg0(0b10)
        .with_tg1(0b01)
        .with_ds(false)
        .with_t0sz(25)
        .with_t1sz(25);
    // T0SZ [5:0] | TG0 [15:14] | T1SZ [21:16] | TG1 [31:30].
    assert_eq!(tcr.bits, 25 | (0b10 << 14) | (25 << 16) | (0b01 << 30));
}

#[test]
fn ram_va_round_trip_preserves_physical_address() {
    let ram_start: u64 = 0x40000000;
    for &pa in &[0x40000000u64, 0x40004000, 0x47FFC000] {
        let va = pa_to_ram_va(pa, ram_start);
        // The top bits of a high-half address equal the mask.
        assert_eq!(va & TTBR1_MASK, TTBR1_MASK);
        assert_eq!(ram_va_to_pa(va, ram_start), pa);
    }
}
