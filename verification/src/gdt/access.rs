use vstd::prelude::*;

verus! {

/// The 8-bit access field of a segment descriptor, stored as individual
/// bits: present (bit 7), privilege ring (bits 6..5), descriptor type
/// (bit 4), executable (bit 3), direction/conforming (bit 2),
/// readable/writable (bit 1), and accessed (bit 0).
#[derive(Clone, Copy, Debug)]
pub struct Access {
    pub present: bool,
    pub ring: u8,
    pub descriptor_type: bool,
    pub executable: bool,
    pub conforming: bool,
    pub read_write: bool,
    pub accessed: bool,
}

impl Access {
    pub open spec fn wf(self) -> bool {
        self.ring < 4
    }

    /// The access byte as it stands in the encoded descriptor.
    pub open spec fn to_u8_spec(self) -> u8 {
        ((if self.present {
            0x80u8
        } else {
            0u8
        }) + self.ring * 0x20 + (if self.descriptor_type {
            0x10u8
        } else {
            0u8
        }) + (if self.executable {
            0x08u8
        } else {
            0u8
        }) + (if self.conforming {
            0x04u8
        } else {
            0u8
        }) + (if self.read_write {
            0x02u8
        } else {
            0u8
        }) + (if self.accessed {
            0x01u8
        } else {
            0u8
        })) as u8
    }

    pub fn new(
        present: bool,
        ring: u8,
        descriptor_type: bool,
        executable: bool,
        conforming: bool,
        read_write: bool,
        accessed: bool,
    ) -> (a: Access)
        requires
            ring < 4,
        ensures
            a == (Access {
                present,
                ring,
                descriptor_type,
                executable,
                conforming,
                read_write,
                accessed,
            }),
            a.wf(),
    {
        Access { present, ring, descriptor_type, executable, conforming, read_write, accessed }
    }

    /// The access byte of a flat kernel code segment: present, ring 0,
    /// code/data descriptor, executable, readable.
    pub fn kernel_code() -> (a: Access)
        ensures
            a.wf(),
            a.to_u8_spec() == 0x9Au8,
    {
        Access {
            present: true,
            ring: 0,
            descriptor_type: true,
            executable: true,
            conforming: false,
            read_write: true,
            accessed: false,
        }
    }

    /// The access byte of a flat kernel data segment: present, ring 0,
    /// code/data descriptor, writable.
    pub fn kernel_data() -> (a: Access)
        ensures
            a.wf(),
            a.to_u8_spec() == 0x92u8,
    {
        Access {
            present: true,
            ring: 0,
            descriptor_type: true,
            executable: false,
            conforming: false,
            read_write: true,
            accessed: false,
        }
    }

    pub fn to_u8(&self) -> (r: u8)
        requires
            self.wf(),
        ensures
            r == self.to_u8_spec(),
    {
        let mut r: u8 = 0;
        if self.present {
            r = r + 0x80;
        }
        r = r + self.ring * 0x20;
        if self.descriptor_type {
            r = r + 0x10;
        }
        if self.executable {
            r = r + 0x08;
        }
        if self.conforming {
            r = r + 0x04;
        }
        if self.read_write {
            r = r + 0x02;
        }
        if self.accessed {
            r = r + 0x01;
        }
        r
    }
}

} // verus!
