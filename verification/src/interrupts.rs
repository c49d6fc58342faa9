//! The interrupt-descriptor-table entry layout: a handler address split
//! across two fields beside a fixed kernel-code selector and gate type.
//! Loading the table into the processor is hardware work and lives outside
//! the library.

use vstd::prelude::*;

verus! {

/// One interrupt gate descriptor.
#[derive(Debug, Clone, Copy, PartialEq, Eq, Structural)]
pub struct IdtEntry {
    pub offset_0: u16,
    pub segment_selector: u16,
    pub reserved: u8,
    pub p_dpl_0_gatetype: u8,
    pub offset_48: u16,
}

/// The descriptor-table register value: the table's size and address.
#[derive(Debug, Clone, Copy, PartialEq, Eq, Structural)]
pub struct IdtR {
    pub size: u16,
    pub addr: u32,
}

impl IdtEntry {
    /// A present 32-bit interrupt gate in the kernel code segment, with the
    /// handler address split into its low and high halves.
    pub fn new(offset: u32) -> (e: IdtEntry)
        ensures
            e.offset_0 == offset % 0x10000,
            e.segment_selector == 8,
            e.reserved == 0,
            e.p_dpl_0_gatetype == 0x8e,
            e.offset_48 == (offset / 0x10000) % 0x10000,
    {
        proof {
            assert((offset & 0xffff) == offset % 0x10000) by (bit_vector);
            assert(((offset >> 16) & 0xffff) == (offset / 0x10000) % 0x10000) by (bit_vector);
        }
        IdtEntry {
            offset_0: (offset & 0xffff) as u16,
            segment_selector: 0x08,
            reserved: 0,
            p_dpl_0_gatetype: 0x8e,
            offset_48: ((offset >> 16) & 0xffff) as u16,
        }
    }

    /// The absent gate every slot starts as: all fields zero.
    pub fn missing() -> (e: IdtEntry)
        ensures
            e == (IdtEntry {
                offset_0: 0u16,
                segment_selector: 0u16,
                reserved: 0u8,
                p_dpl_0_gatetype: 0u8,
                offset_48: 0u16,
            }),
    {
        IdtEntry { offset_0: 0, segment_selector: 0, reserved: 0, p_dpl_0_gatetype: 0, offset_48: 0 }
    }
}

} // verus!
