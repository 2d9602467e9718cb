use crate::gdt::access::Access;
use crate::gdt::flag::Flag;
use vstd::prelude::*;

verus! {

/// An 8-byte x86 segment descriptor, stored field by field at its
/// architecturally mandated byte offsets (highest byte first).
#[derive(Clone, Copy, Debug)]
pub struct Entry {
    pub base_31_24: u8,
    pub flags_limit_16_19: u8,
    pub access: u8,
    pub base_16_23: u8,
    pub base_0_15: u16,
    pub limit_0_15: u16,
}

/// The descriptor fields produced by packing a 32-bit base, a 20-bit limit,
/// the positioned flags byte and the access byte.
pub open spec fn encode_entry(base: u32, limit: u32, flag_byte: u8, access_byte: u8) -> Entry {
    Entry {
        base_31_24: (((base & 0xFF000000) >> 24) as u8),
        flags_limit_16_19: (flag_byte | (((limit & 0x000F0000) >> 16) as u8)),
        access: access_byte,
        base_16_23: (((base & 0x00FF0000) >> 16) as u8),
        base_0_15: ((base & 0x0000FFFF) as u16),
        limit_0_15: ((limit & 0x0000FFFF) as u16),
    }
}

/// The 64-bit value of a descriptor: each stored field shifted into its
/// documented bit position and combined with bitwise or.
pub open spec fn entry_value(e: Entry) -> u64 {
    ((e.base_31_24 as u64) << 56) | ((e.flags_limit_16_19 as u64) << 48) | ((e.access as u64)
        << 40) | ((e.base_16_23 as u64) << 32) | ((e.base_0_15 as u64) << 16) | (e.limit_0_15
        as u64)
}

impl Entry {
    pub fn new(base: u32, limit: u32, flag: Flag, access: Access) -> (e: Entry)
        requires
            access.wf(),
        ensures
            e == encode_entry(base, limit, flag.to_u8_spec(), access.to_u8_spec()),
    {
        Entry {
            base_31_24: ((base & 0xFF000000) >> 24) as u8,
            flags_limit_16_19: flag.to_u8() | ((limit & 0x000F0000) >> 16) as u8,
            access: access.to_u8(),
            base_16_23: ((base & 0x00FF0000) >> 16) as u8,
            base_0_15: (base & 0x0000FFFF) as u16,
            limit_0_15: (limit & 0x0000FFFF) as u16,
        }
    }

    /// The all-zero descriptor mandated at table index 0.
    pub fn new_zero() -> (e: Entry)
        ensures
            e == (Entry {
                base_31_24: 0u8,
                flags_limit_16_19: 0u8,
                access: 0u8,
                base_16_23: 0u8,
                base_0_15: 0u16,
                limit_0_15: 0u16,
            }),
            entry_value(e) == 0u64,
    {
        let e = Entry {
            base_31_24: 0,
            flags_limit_16_19: 0,
            access: 0,
            base_16_23: 0,
            base_0_15: 0,
            limit_0_15: 0,
        };
        proof {
            assert(((0u8 as u64) << 56) | ((0u8 as u64) << 48) | ((0u8 as u64) << 40) | ((0u8
                as u64) << 32) | ((0u16 as u64) << 16) | (0u16 as u64) == 0u64) by (bit_vector);
        }
        e
    }

    pub fn to_u64(&self) -> (r: u64)
        ensures
            r == entry_value(*self),
    {
        ((self.base_31_24 as u64) << 56) | ((self.flags_limit_16_19 as u64) << 48) | ((self.access
            as u64) << 40) | ((self.base_16_23 as u64) << 32) | ((self.base_0_15 as u64) << 16) | (
        self.limit_0_15 as u64)
    }
}

} // verus!
