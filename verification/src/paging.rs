//! Where the active level-4 page table can be reached, given the offset at which
//! the bootloader maps all of physical memory.
use vstd::prelude::*;
use crate::address::{canonical_virt, virt_valid, virt_addr_new};

verus! {

/// The offset and the table's frame address add up to a valid virtual address.
pub open spec fn table_reachable(phys_offset: u64, table_frame: u64) -> bool {
    phys_offset + table_frame <= u64::MAX && virt_valid((phys_offset + table_frame) as u64)
}

/// The virtual address of the page table in the frame at `table_frame`
/// (`phys_offset + table_frame` as a `VirtAddr`).
pub fn l4_table_address(phys_offset: u64, table_frame: u64) -> (r: u64)
    requires
        table_reachable(phys_offset, table_frame),
    ensures
        Some(r) == canonical_virt((phys_offset + table_frame) as u64),
{
    virt_addr_new(phys_offset + table_frame)
}

} // verus!
