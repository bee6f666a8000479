//! Device-tree façade: header handling, property lookup, `reg` decoding
//! and node iteration.

use jerry::fdt::{
    be_read, dtb_total_size, libfdt_lite_init, FDTError, FDTItr, FDTNode, FDTProperty, LibFdt,
};

fn prop(name: &[u8], value: &[u8]) -> FDTProperty {
    FDTProperty { name: name.to_vec(), value: value.to_vec() }
}

fn node(name: &[u8], properties: Vec<FDTProperty>) -> FDTNode {
    FDTNode { name: Ok(name.to_vec()), properties }
}

fn root_node_cells_2_2() -> FDTNode {
    node(
        b"",
        vec![
            prop(b"#size-cells", &[0, 0, 0, 2]),
            prop(b"#address-cells", &[0, 0, 0, 2]),
        ],
    )
}

fn header_with_totalsize(total: u32) -> Vec<u8> {
    let t = total.to_be_bytes();
    vec![0xd0, 0x0d, 0xfe, 0xed, t[0], t[1], t[2], t[3]]
}

#[test]
fn reg_decodes_two_by_two_cells_big_endian() {
    // 16 bytes: address 0x40000000, size 0x08000000, both 64-bit cells.
    let n = node(
        b"memory@40000000",
        vec![prop(
            b"reg",
            &[0, 0, 0, 0, 0x40, 0, 0, 0, 0, 0, 0, 0, 0x08, 0, 0, 0],
        )],
    );
    let fdt = LibFdt { dtb_start: 0, address_cells: 2, size_cells: 2 };
    assert_eq!(n.get_reg(&fdt).unwrap(), (0x40000000, 0x08000000));
}

#[test]
fn reg_decodes_one_by_one_cells() {
    let n = node(b"pl011@9000000", vec![prop(b"reg", &[0x09, 0, 0, 0, 0, 0, 0x10, 0])]);
    let fdt = LibFdt { dtb_start: 0, address_cells: 1, size_cells: 1 };
    assert_eq!(n.get_reg(&fdt).unwrap(), (0x09000000, 0x1000));
}

#[test]
fn reg_of_wrong_length_is_unexpected_format() {
    let n = node(b"x", vec![prop(b"reg", &[0, 0, 0, 0])]);
    let fdt = LibFdt { dtb_start: 0, address_cells: 2, size_cells: 2 };
    assert_eq!(n.get_reg(&fdt).unwrap_err(), FDTError::UnexpectedRegFormat);
}

#[test]
fn reg_with_unsupported_cell_count_is_unexpected_format() {
    // Three address cells are not a shape this kernel decodes, even when
    // the length adds up.
    let n = node(b"x", vec![prop(b"reg", &[0; 16])]);
    let fdt = LibFdt { dtb_start: 0, address_cells: 3, size_cells: 1 };
    assert_eq!(n.get_reg(&fdt).unwrap_err(), FDTError::UnexpectedRegFormat);
}

#[test]
fn missing_reg_is_not_found() {
    let n = node(b"x", vec![]);
    let fdt = LibFdt { dtb_start: 0, address_cells: 2, size_cells: 2 };
    assert_eq!(n.get_reg(&fdt).unwrap_err(), FDTError::NotFound);
}

#[test]
fn property_lookup_finds_bytes_and_reports_missing() {
    let n = node(b"x", vec![prop(b"a", &[1, 2]), prop(b"b", &[]), prop(b"a", &[9])]);
    // The first property of the name wins; a zero-length property is an
    // empty byte string.
    assert_eq!(n.get_property(b"a").unwrap(), &vec![1, 2]);
    assert_eq!(n.get_property(b"b").unwrap(), &Vec::<u8>::new());
    assert_eq!(n.get_property(b"c").unwrap_err(), FDTError::NotFound);
}

#[test]
fn node_name_errors_are_passed_through() {
    let n = FDTNode { name: Err(FDTError::BadOffset), properties: vec![] };
    assert_eq!(n.get_name().unwrap_err(), FDTError::BadOffset);
}

#[test]
fn dtb_total_size_reads_big_endian_word_at_offset_4() {
    // The end of the blob is the base plus this word, whatever the bytes
    // at offset 0 hold.
    let header = header_with_totalsize(0x1000);
    assert_eq!(dtb_total_size(&header), 0x1000);
    let base: u64 = 0x47F00000;
    assert_eq!(base + dtb_total_size(&header), 0x47F01000);
    let mut garbled = header.clone();
    garbled[0] = 0;
    garbled[3] = 0;
    assert_eq!(dtb_total_size(&garbled), 0x1000);
}

#[test]
fn libfdt_init_caches_cell_counts() {
    let header = header_with_totalsize(0x1000);
    let fdt = libfdt_lite_init(0x40000000, &header, &root_node_cells_2_2()).unwrap();
    assert_eq!(fdt.dtb_start, 0x40000000);
    assert_eq!(fdt.address_cells, 2);
    assert_eq!(fdt.size_cells, 2);
}

#[test]
fn libfdt_init_rejects_bad_magic() {
    let header = vec![0, 0, 0, 0, 0, 0, 0x10, 0];
    let r = libfdt_lite_init(0, &header, &root_node_cells_2_2());
    assert_eq!(r.unwrap_err(), FDTError::BadMagic);
}

#[test]
fn libfdt_init_requires_cell_properties() {
    let header = header_with_totalsize(0x100);
    let bare_root = node(b"", vec![]);
    assert_eq!(libfdt_lite_init(0, &header, &bare_root).unwrap_err(), FDTError::NotFound);
    let odd_root = node(b"", vec![prop(b"#size-cells", &[0, 2])]);
    assert_eq!(libfdt_lite_init(0, &header, &odd_root).unwrap_err(), FDTError::BadNCells);
}

#[test]
fn iterator_yields_every_node_after_the_root_once() {
    let fdt = LibFdt { dtb_start: 0, address_cells: 2, size_cells: 2 };
    let nodes = vec![node(b"", vec![]), node(b"a", vec![]), node(b"b", vec![])];
    let mut itr = FDTItr::new(&fdt, nodes).unwrap();
    assert_eq!(itr.next().unwrap().name.as_ref().unwrap(), &b"a".to_vec());
    assert_eq!(itr.next().unwrap().name.as_ref().unwrap(), &b"b".to_vec());
    assert!(itr.next().is_none());
    assert!(itr.next().is_none());
}

#[test]
fn be_read_decodes_most_significant_byte_first() {
    let v = vec![0x12, 0x34, 0x56, 0x78, 0x9A];
    assert_eq!(be_read(&v, 0, 4), 0x12345678);
    assert_eq!(be_read(&v, 1, 4), 0x3456789A);
    assert_eq!(be_read(&v, 2, 1), 0x56);
    assert_eq!(be_read(&v, 0, 0), 0);
}
