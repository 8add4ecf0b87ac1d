//! Verified core of the LessbadOS kernel: address arithmetic, the boot frame
//! allocator, the heap mapping plan, descriptor table layout, interrupt
//! numbering and the kernel test protocol.
pub mod address;
pub mod frames;
pub mod gdt;
pub mod heap;
pub mod interrupts;
pub mod paging;
pub mod testing;
