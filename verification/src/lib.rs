//! Early-boot memory-management core of a small 64-bit ARM kernel.
//!
//! The crate models the three coupled subsystems of bring-up: the physical
//! page manager (a reference-counted frame registry), the page-table manager
//! (a three-level translation-table builder over 16 KiB granules), and the
//! device bring-up sequence that derives RAM geometry from a flattened
//! device tree, initialises both managers and flips the MMU flag.  All
//! machine state (frame registry, table tree, MMU flag) is held in plain
//! data handed from function to function, so every decision the kernel
//! makes is a verified function from values to values; the volatile
//! hardware accesses themselves live outside this crate.

pub mod devices;
pub mod fdt;
pub mod memory;
pub mod ppm;
pub mod ptm;
pub mod ram;
pub mod ttd;
pub mod types;
pub mod uart;
pub mod virtio;
