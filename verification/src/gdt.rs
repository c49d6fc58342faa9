//! The global-descriptor-table entry layout: the segment base, limit and
//! flag bits packed into the six fields the processor expects. Loading the
//! table into the processor is hardware work and lives outside the library.

use vstd::prelude::*;

verus! {

/// One segment descriptor, with the base and limit split across its fields.
#[derive(Debug, Clone, Copy, PartialEq, Eq, Structural)]
pub struct GdtEntry {
    pub limit_low: u16,
    pub base_low: u16,
    pub base_middle: u8,
    pub access: u8,
    pub granularity: u8,
    pub base_high: u8,
}

/// The descriptor-table register value: the table's size and address.
#[derive(Debug, Clone, Copy, PartialEq, Eq, Structural)]
pub struct GdtR {
    pub size: u16,
    pub addr: u32,
}

impl GdtEntry {
    /// Packs a base, limit, access byte and flag nibble into a descriptor:
    /// the low 16 limit bits and low 24 base bits go into their fields, the
    /// flag nibble keeps its high four bits next to the limit's bits 16-19,
    /// and the top base byte closes the entry.
    pub fn new(base: u32, limit: u32, access: u8, other: u8) -> (e: GdtEntry)
        ensures
            e.limit_low == limit % 0x10000,
            e.base_low == base % 0x10000,
            e.base_middle == (base / 0x10000) % 0x100,
            e.access == access,
            e.granularity == (other / 16) * 16 + (limit / 0x10000) % 16,
            e.base_high == (base / 0x1000000) % 0x100,
    {
        proof {
            assert((limit & 0xffff) == limit % 0x10000) by (bit_vector);
            assert((base & 0xffff) == base % 0x10000) by (bit_vector);
            assert(((base >> 16) & 0xff) == (base / 0x10000) % 0x100) by (bit_vector);
            assert(((base >> 24) & 0xff) == (base / 0x1000000) % 0x100) by (bit_vector);
            assert(((limit >> 16) & 0x0f) == (limit / 0x10000) % 16) by (bit_vector);
            assert(((limit >> 16) & 0x0f) < 16) by (bit_vector);
            assert((other & 0xf0) == (other / 16) * 16) by (bit_vector);
            let l: u8 = (((limit >> 16) & 0x0f) as u8);
            assert((other & 0xf0) | (l & 0x0f) == (other & 0xf0) + (l & 0x0f)) by (bit_vector);
            assert(l & 0x0f == l) by (bit_vector)
                requires
                    l < 16,
            ;
        }
        GdtEntry {
            limit_low: (limit & 0xffff) as u16,
            base_low: (base & 0xffff) as u16,
            base_middle: ((base >> 16) & 0xff) as u8,
            access,
            granularity: (other & 0xf0) | (((limit >> 16) & 0x0f) as u8),
            base_high: ((base >> 24) & 0xff) as u8,
        }
    }
}

} // verus!
