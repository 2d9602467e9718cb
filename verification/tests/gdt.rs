use kernel_core::gdt::access::Access;
use kernel_core::gdt::entry::Entry;
use kernel_core::gdt::flag::Flag;
use kernel_core::gdt::{gdt_table, kernel_code_segment, kernel_data_segment, GDT_LIMIT};

#[test]
fn encode_flat_kernel_code_segment() {
    let e = Entry::new(0, 0xFFFFF, Flag::flat_page_granular(), Access::kernel_code());
    assert_eq!(e.to_u64(), 0x00CF9A000000FFFF);
}

#[test]
fn encode_flat_kernel_data_segment() {
    let e = Entry::new(0, 0xFFFFF, Flag::flat_page_granular(), Access::kernel_data());
    assert_eq!(e.to_u64(), 0x00CF92000000FFFF);
}

#[test]
fn null_descriptor_is_all_zero() {
    assert_eq!(Entry::new_zero().to_u64(), 0);
}

#[test]
fn field_bytes_land_at_their_offsets() {
    let flag = Flag::new(true, false, true, false);
    let access = Access::new(true, 3, false, true, false, false, true);
    let e = Entry::new(0x12345678, 0xABCDE, flag, access);
    let v = e.to_u64();
    assert_eq!(v >> 56, 0x12);
    assert_eq!((v >> 48) & 0xFF, 0xA0 | 0x0A);
    assert_eq!((v >> 40) & 0xFF, 0xE9);
    assert_eq!((v >> 32) & 0xFF, 0x34);
    assert_eq!((v >> 16) & 0xFFFF, 0x5678);
    assert_eq!(v & 0xFFFF, 0xBCDE);
}

#[test]
fn flag_and_access_bytes() {
    assert_eq!(Flag::flat_page_granular().to_u8(), 0xC0);
    assert_eq!(Flag::new(false, false, false, false).to_u8(), 0);
    assert_eq!(Access::kernel_code().to_u8(), 0x9A);
    assert_eq!(Access::kernel_data().to_u8(), 0x92);
}

#[test]
fn table_holds_null_code_and_data_in_order() {
    let t = gdt_table();
    assert_eq!(t.len(), GDT_LIMIT);
    assert_eq!(t[0], 0);
    assert_eq!(t[1], kernel_code_segment());
    assert_eq!(t[2], kernel_data_segment());
    assert_eq!(t[1], 0x00CF9A000000FFFF);
    assert_eq!(t[2], 0x00CF92000000FFFF);
}
