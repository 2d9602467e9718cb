use crate::gdt::entry::{encode_entry, entry_value, Entry};
use vstd::prelude::*;

pub mod access;
pub mod entry;
pub mod flag;

verus! {

/// Number of descriptors in the table: null, kernel code, kernel data.
pub const GDT_LIMIT: usize = 3;

/// Flat 4 GiB kernel code segment: base 0, limit 0xFFFFF in 4 KiB pages,
/// 32-bit, present, ring 0, executable, readable.
pub const KERNEL_CODE_SEG: u64 = 0x00CF9A000000FFFF;

/// Flat 4 GiB kernel data segment: base 0, limit 0xFFFFF in 4 KiB pages,
/// 32-bit, present, ring 0, writable.
pub const KERNEL_DATA_SEG: u64 = 0x00CF92000000FFFF;

/// The flat kernel code descriptor encodes, bit for bit, to the documented
/// 64-bit value.
pub proof fn lemma_flat_kernel_code_value()
    ensures
        entry_value(encode_entry(0u32, 0xFFFFFu32, 0xC0u8, 0x9Au8)) == KERNEL_CODE_SEG,
{
    assert((((0u32 & 0xFF000000) >> 24) as u8) == 0u8) by (bit_vector);
    assert((0xC0u8 | (((0xFFFFFu32 & 0x000F0000) >> 16) as u8)) == 0xCFu8) by (bit_vector);
    assert((((0u32 & 0x00FF0000) >> 16) as u8) == 0u8) by (bit_vector);
    assert(((0u32 & 0x0000FFFF) as u16) == 0u16) by (bit_vector);
    assert(((0xFFFFFu32 & 0x0000FFFF) as u16) == 0xFFFFu16) by (bit_vector);
    assert(((0u8 as u64) << 56) | ((0xCFu8 as u64) << 48) | ((0x9Au8 as u64) << 40) | ((0u8 as u64)
        << 32) | ((0u16 as u64) << 16) | (0xFFFFu16 as u64) == 0x00CF9A000000FFFFu64)
        by (bit_vector);
}

/// The flat kernel data descriptor encodes, bit for bit, to the documented
/// 64-bit value.
pub proof fn lemma_flat_kernel_data_value()
    ensures
        entry_value(encode_entry(0u32, 0xFFFFFu32, 0xC0u8, 0x92u8)) == KERNEL_DATA_SEG,
{
    assert((((0u32 & 0xFF000000) >> 24) as u8) == 0u8) by (bit_vector);
    assert((0xC0u8 | (((0xFFFFFu32 & 0x000F0000) >> 16) as u8)) == 0xCFu8) by (bit_vector);
    assert((((0u32 & 0x00FF0000) >> 16) as u8) == 0u8) by (bit_vector);
    assert(((0u32 & 0x0000FFFF) as u16) == 0u16) by (bit_vector);
    assert(((0xFFFFFu32 & 0x0000FFFF) as u16) == 0xFFFFu16) by (bit_vector);
    assert(((0u8 as u64) << 56) | ((0xCFu8 as u64) << 48) | ((0x92u8 as u64) << 40) | ((0u8 as u64)
        << 32) | ((0u16 as u64) << 16) | (0xFFFFu16 as u64) == 0x00CF92000000FFFFu64)
        by (bit_vector);
}

/// Builds the flat kernel code descriptor and assembles its 64-bit value.
pub fn kernel_code_segment() -> (r: u64)
    ensures
        r == KERNEL_CODE_SEG,
        r == entry_value(encode_entry(0u32, 0xFFFFFu32, 0xC0u8, 0x9Au8)),
{
    let e = Entry::new(
        0,
        0xFFFFF,
        crate::gdt::flag::Flag::flat_page_granular(),
        crate::gdt::access::Access::kernel_code(),
    );
    proof {
        lemma_flat_kernel_code_value();
    }
    e.to_u64()
}

/// Builds the flat kernel data descriptor and assembles its 64-bit value.
pub fn kernel_data_segment() -> (r: u64)
    ensures
        r == KERNEL_DATA_SEG,
        r == entry_value(encode_entry(0u32, 0xFFFFFu32, 0xC0u8, 0x92u8)),
{
    let e = Entry::new(
        0,
        0xFFFFF,
        crate::gdt::flag::Flag::flat_page_granular(),
        crate::gdt::access::Access::kernel_data(),
    );
    proof {
        lemma_flat_kernel_data_value();
    }
    e.to_u64()
}

/// The descriptor table a boot routine loads into the CPU: the mandatory
/// null descriptor, then the flat kernel code and data segments.
pub fn gdt_table() -> (t: [u64; 3])
    ensures
        t@.len() == GDT_LIMIT,
        t@[0] == 0u64,
        t@[1] == KERNEL_CODE_SEG,
        t@[2] == KERNEL_DATA_SEG,
{
    let zero = Entry::new_zero();
    [zero.to_u64(), kernel_code_segment(), kernel_data_segment()]
}

} // verus!
