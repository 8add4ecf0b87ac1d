//! The task state segment and global descriptor table of the kernel: the
//! double-fault stack in the interrupt stack table, and a table holding the
//! kernel code segment and the TSS, with the selectors that reach them.
use vstd::prelude::*;
use x86_64::structures::gdt::GlobalDescriptorTable;
use x86_64::structures::tss::TaskStateSegment;
use crate::address::{canonical_virt, virt_valid, virt_addr_new};

verus! {

/// Slot of the interrupt stack table that holds the double-fault stack.
pub const DOUBLE_FAULT_IST_IDX: u16 = 0;

/// Size in bytes of the double-fault stack.
pub const IST_STACK_SIZE: usize = 4096 * 5;

/// Number of slots of the interrupt stack table.
pub const IST_SLOTS: usize = 7;

/// Number of 8-byte slots of the global descriptor table.
pub const GDT_SLOTS: usize = 8;

/// The 64-bit kernel code segment descriptor (`DescriptorFlags::KERNEL_CODE64`).
pub const KERNEL_CODE64: u64 = 0x00af_9b00_0000_ffff;

/// The bits of a TSS descriptor's low word that do not hold the TSS's address.
pub const TSS_LOW_FIXED_MASK: u64 = 0x00ff_ff00_0000_ffff;

/// Those bits in a TSS descriptor: present, type "available 64-bit TSS",
/// privilege level 0, limit 0x67 (a 104-byte TSS).
pub const TSS_LOW_FIXED_BITS: u64 = 0x0000_8900_0000_0067;

#[verifier::external_type_specification]
#[verifier::external_body]
pub struct ExTaskStateSegment(TaskStateSegment);

#[verifier::external_type_specification]
#[verifier::external_body]
pub struct ExGlobalDescriptorTable(GlobalDescriptorTable);

/// The interrupt stack table of a TSS, as raw addresses.
pub uninterp spec fn interrupt_stacks(tss: TaskStateSegment) -> Seq<u64>;

/// The used slots of a descriptor table (what `as_raw_slice` gives).
pub uninterp spec fn gdt_entries(gdt: GlobalDescriptorTable) -> Seq<u64>;

/// A segment descriptor: one word for a code or data segment, two for a system
/// segment such as a TSS.
#[derive(Debug, Clone, Copy)]
pub enum SegmentDescriptor {
    User(u64),
    System(u64, u64),
}

/// The table words a descriptor takes.
pub open spec fn descriptor_words(d: SegmentDescriptor) -> Seq<u64> {
    match d {
        SegmentDescriptor::User(v) => seq![v],
        SegmentDescriptor::System(low, high) => seq![low, high],
    }
}

/// The privilege level written in a descriptor (bits 45 and 46 of its low word).
pub open spec fn descriptor_dpl(d: SegmentDescriptor) -> u64 {
    match d {
        SegmentDescriptor::User(v) => (v >> 45u64) & 3,
        SegmentDescriptor::System(low, _) => (low >> 45u64) & 3,
    }
}

/// The selector of table slot `index` at privilege level `rpl`.
pub open spec fn selector(index: nat, rpl: u64) -> u16 {
    (index * 8 + rpl) as u16
}

/// `TaskStateSegment::new`: a TSS with a zeroed interrupt stack table.
#[verifier::external_body]
fn tss_new() -> (r: TaskStateSegment)
    ensures
        interrupt_stacks(r) == Seq::new(IST_SLOTS as nat, |i: int| 0u64),
{
    TaskStateSegment::new()
}

/// Writes `top` (a canonical address, through `VirtAddr::new`) into slot `index`
/// of the interrupt stack table of `tss`.
#[verifier::external_body]
fn tss_set_interrupt_stack(tss: &mut TaskStateSegment, index: usize, top: u64)
    requires
        index < IST_SLOTS,
        canonical_virt(top) == Some(top),
    ensures
        interrupt_stacks(*final(tss)) == interrupt_stacks(*old(tss)).update(index as int, top),
{
    tss.interrupt_stack_table[index] = x86_64::VirtAddr::new(top);
}

/// `GlobalDescriptorTable::new`: a table holding only the null descriptor.
#[verifier::external_body]
fn gdt_new() -> (r: GlobalDescriptorTable)
    ensures
        gdt_entries(r) == seq![0u64],
{
    GlobalDescriptorTable::new()
}

/// `Descriptor::kernel_code_segment`: the 64-bit kernel code segment.
#[verifier::external_body]
fn kernel_code_segment() -> (r: SegmentDescriptor)
    ensures
        r == SegmentDescriptor::User(KERNEL_CODE64),
{
    match x86_64::structures::gdt::Descriptor::kernel_code_segment() {
        x86_64::structures::gdt::Descriptor::UserSegment(v) => SegmentDescriptor::User(v),
        x86_64::structures::gdt::Descriptor::SystemSegment(low, high) => SegmentDescriptor::System(low, high),
    }
}

/// `Descriptor::tss_segment`: a system descriptor for `tss`. Its fixed bits are
/// stated; the bits that hold the TSS's address are not.
#[verifier::external_body]
fn tss_segment(tss: &'static TaskStateSegment) -> (r: SegmentDescriptor)
    ensures
        r is System,
        descriptor_words(r)[0] & TSS_LOW_FIXED_MASK == TSS_LOW_FIXED_BITS,
        descriptor_words(r)[1] < 0x1_0000_0000,
{
    match x86_64::structures::gdt::Descriptor::tss_segment(tss) {
        x86_64::structures::gdt::Descriptor::UserSegment(v) => SegmentDescriptor::User(v),
        x86_64::structures::gdt::Descriptor::SystemSegment(low, high) => SegmentDescriptor::System(low, high),
    }
}

/// `GlobalDescriptorTable::add_entry`: appends the descriptor's words to the
/// table and gives the selector of its first slot, at the descriptor's privilege
/// level. The crate panics when the words do not fit, which `requires` leaves out.
#[verifier::external_body]
fn gdt_add_entry(gdt: &mut GlobalDescriptorTable, d: SegmentDescriptor) -> (sel: u16)
    requires
        gdt_entries(*old(gdt)).len() + descriptor_words(d).len() <= GDT_SLOTS,
    ensures
        gdt_entries(*final(gdt)) == gdt_entries(*old(gdt)) + descriptor_words(d),
        sel == selector(gdt_entries(*old(gdt)).len(), descriptor_dpl(d)),
{
    let entry = match d {
        SegmentDescriptor::User(v) => x86_64::structures::gdt::Descriptor::UserSegment(v),
        SegmentDescriptor::System(low, high) => x86_64::structures::gdt::Descriptor::SystemSegment(low, high),
    };
    gdt.add_entry(entry).0
}

/// The stack is valid: its top is a valid virtual address.
pub open spec fn stack_fits(stack_begin: u64) -> bool {
    stack_begin + IST_STACK_SIZE <= u64::MAX && virt_valid((stack_begin + IST_STACK_SIZE) as u64)
}

/// The top of the double-fault stack that starts at `stack_begin`
/// (`VirtAddr + IST_STACK_SIZE`; stacks grow downwards).
pub fn ist_stack_end(stack_begin: u64) -> (r: u64)
    requires
        stack_fits(stack_begin),
    ensures
        Some(r) == canonical_virt((stack_begin + IST_STACK_SIZE) as u64),
{
    virt_addr_new(stack_begin + IST_STACK_SIZE as u64)
}

/// A canonical address stays as it is.
pub proof fn lemma_canonical_idempotent(addr: u64)
    requires
        virt_valid(addr),
    ensures
        canonical_virt(addr) matches Some(v) && canonical_virt(v) == Some(v),
{
    let hi = addr >> 47u64;
    assert(hi == 1u64 ==> (addr | 0xffff_0000_0000_0000u64) >> 47u64 == 0x1ffffu64) by (bit_vector)
        requires
            hi == addr >> 47u64,
    ;
}

/// The kernel's TSS: every interrupt stack slot zero but the double-fault slot,
/// which holds the top of the double-fault stack starting at `stack_begin`.
pub fn build_tss(stack_begin: u64) -> (tss: TaskStateSegment)
    requires
        stack_fits(stack_begin),
    ensures
        canonical_virt((stack_begin + IST_STACK_SIZE) as u64) matches Some(top) && interrupt_stacks(tss)
            == Seq::new(IST_SLOTS as nat, |i: int| 0u64).update(DOUBLE_FAULT_IST_IDX as int, top),
{
    let mut tss = tss_new();
    let top = ist_stack_end(stack_begin);
    proof {
        lemma_canonical_idempotent((stack_begin + IST_STACK_SIZE) as u64);
    }
    tss_set_interrupt_stack(&mut tss, DOUBLE_FAULT_IST_IDX as usize, top);
    tss
}

/// The selectors of the kernel's segments.
#[derive(Debug, Clone, Copy)]
pub struct Selectors {
    pub code_selector: u16,
    pub tss_selector: u16,
}

/// The kernel's descriptor table with the selectors of its segments.
pub struct GdtWrapper {
    pub gdt: GlobalDescriptorTable,
    pub selectors: Selectors,
}

/// The kernel's descriptor table: the null descriptor, the kernel code segment
/// (selector 0x08) and the TSS (selector 0x10, two slots).
pub fn build_gdt(tss: &'static TaskStateSegment) -> (r: GdtWrapper)
    ensures
        gdt_entries(r.gdt).len() == 4,
        gdt_entries(r.gdt)[0] == 0,
        gdt_entries(r.gdt)[1] == KERNEL_CODE64,
        gdt_entries(r.gdt)[2] & TSS_LOW_FIXED_MASK == TSS_LOW_FIXED_BITS,
        gdt_entries(r.gdt)[3] < 0x1_0000_0000,
        r.selectors.code_selector == 0x08,
        r.selectors.tss_selector == 0x10,
{
    let mut gdt = gdt_new();
    let code = kernel_code_segment();
    let code_selector = gdt_add_entry(&mut gdt, code);
    let tss_desc = tss_segment(tss);
    let tss_selector = gdt_add_entry(&mut gdt, tss_desc);
    proof {
        assert((KERNEL_CODE64 >> 45u64) & 3 == 0) by (bit_vector);
        if let SegmentDescriptor::System(low, high) = tss_desc {
            assert(low & TSS_LOW_FIXED_MASK == TSS_LOW_FIXED_BITS ==> (low >> 45u64) & 3 == 0) by (bit_vector);
        }
    }
    GdtWrapper { gdt, selectors: Selectors { code_selector, tss_selector } }
}

} // verus!
