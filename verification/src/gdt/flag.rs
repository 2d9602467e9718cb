use vstd::prelude::*;

verus! {

/// The 4-bit flags field of a segment descriptor, stored as individual bits.
/// In the encoded descriptor the field occupies the upper nibble of byte 6:
/// granularity (bit 7), 32-bit operand size (bit 6), long mode (bit 5), and
/// the software-available bit (bit 4).
#[derive(Clone, Copy, Debug)]
pub struct Flag {
    pub granularity: bool,
    pub size_32: bool,
    pub long_mode: bool,
    pub available: bool,
}

impl Flag {
    /// The flags field positioned in the upper nibble of a byte, ready to be
    /// combined with the high bits of the limit.
    pub open spec fn to_u8_spec(self) -> u8 {
        ((if self.granularity {
            0x80u8
        } else {
            0u8
        }) + (if self.size_32 {
            0x40u8
        } else {
            0u8
        }) + (if self.long_mode {
            0x20u8
        } else {
            0u8
        }) + (if self.available {
            0x10u8
        } else {
            0u8
        })) as u8
    }

    pub fn new(granularity: bool, size_32: bool, long_mode: bool, available: bool) -> (f: Flag)
        ensures
            f == (Flag { granularity, size_32, long_mode, available }),
    {
        Flag { granularity, size_32, long_mode, available }
    }

    /// The flag combination of a flat 32-bit segment: the limit counts 4 KiB
    /// pages and the segment uses 32-bit operands.
    pub fn flat_page_granular() -> (f: Flag)
        ensures
            f == (Flag { granularity: true, size_32: true, long_mode: false, available: false }),
            f.to_u8_spec() == 0xC0u8,
    {
        Flag { granularity: true, size_32: true, long_mode: false, available: false }
    }

    pub fn to_u8(&self) -> (r: u8)
        ensures
            r == self.to_u8_spec(),
    {
        let mut r: u8 = 0;
        if self.granularity {
            r = r + 0x80;
        }
        if self.size_32 {
            r = r + 0x40;
        }
        if self.long_mode {
            r = r + 0x20;
        }
        if self.available {
            r = r + 0x10;
        }
        r
    }
}

} // verus!
