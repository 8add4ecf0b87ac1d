//! Canonical virtual addresses, physical addresses and page alignment, as the
//! `x86_64` crate defines them.
use vstd::prelude::*;

verus! {

/// Size of a 4 KiB page or frame.
pub const PAGE_SIZE: u64 = 4096;

/// Physical addresses must fit in 52 bits.
pub const PHYS_ADDR_LIMIT: u64 = 0x10_0000_0000_0000;

/// Bits 47..64 of `addr` (the part that decides canonicality).
pub open spec fn high_bits(addr: u64) -> u64 {
    addr >> 47u64
}

/// The canonical virtual address that `x86_64::VirtAddr::try_new` makes of `addr`:
/// kept as is when bits 47..64 are all clear or all set, sign-extended from bit
/// 47 when only bit 47 is set above bit 46, refused otherwise.
pub open spec fn canonical_virt(addr: u64) -> Option<u64> {
    if high_bits(addr) == 0 || high_bits(addr) == 0x1ffff {
        Some(addr)
    } else if high_bits(addr) == 1 {
        Some(addr | 0xffff_0000_0000_0000u64)
    } else {
        None
    }
}

/// Lower-half addresses are canonical as they are.
pub proof fn lemma_lower_half_canonical(addr: u64)
    requires
        addr < 0x8000_0000_0000,
    ensures
        canonical_virt(addr) == Some(addr),
{
    assert(addr < 0x8000_0000_0000u64 ==> addr >> 47u64 == 0) by (bit_vector);
}

/// `addr` is accepted by `x86_64::VirtAddr::new` (which panics otherwise).
pub open spec fn virt_valid(addr: u64) -> bool {
    canonical_virt(addr) is Some
}

/// `align` is a power of two.
pub open spec fn is_pow2(align: u64) -> bool {
    align != 0 && align & ((align - 1) as u64) == 0
}

/// The greatest multiple of `align` not above `addr` (`align` a power of two).
pub open spec fn align_down_spec(addr: u64, align: u64) -> u64 {
    addr & !((align - 1) as u64)
}

/// `x86_64::align_down`: clears the bits of `addr` below `align`; it panics
/// unless `align` is a power of two.
pub assume_specification[ x86_64::align_down ](addr: u64, align: u64) -> (r: u64)
    requires
        is_pow2(align),
    ensures
        r == align_down_spec(addr, align),
;

/// `x86_64::VirtAddr::try_new` followed by `VirtAddr::as_u64`: the canonical form
/// of `addr`, or `None` where the crate returns `VirtAddrNotValid`.
#[verifier::external_body]
fn virt_addr_try_new(addr: u64) -> (r: Option<u64>)
    ensures
        r == canonical_virt(addr),
{
    match x86_64::VirtAddr::try_new(addr) {
        Ok(v) => Some(v.as_u64()),
        Err(_) => None,
    }
}

/// The canonical virtual address for `addr`, as `x86_64::VirtAddr::new` builds it.
pub fn virt_addr_new(addr: u64) -> (r: u64)
    requires
        virt_valid(addr),
    ensures
        Some(r) == canonical_virt(addr),
{
    match virt_addr_try_new(addr) {
        Some(v) => v,
        None => 0,
    }
}

/// `x86_64::PhysAddr::try_new` followed by `PhysAddr::as_u64`: `addr` itself when
/// bits 52..64 are clear, `None` where the crate returns `PhysAddrNotValid`.
#[verifier::external_body]
fn phys_addr_try_new(addr: u64) -> (r: Option<u64>)
    ensures
        r == (if addr < PHYS_ADDR_LIMIT { Some(addr) } else { None::<u64> }),
{
    match x86_64::PhysAddr::try_new(addr) {
        Ok(p) => Some(p.as_u64()),
        Err(_) => None,
    }
}

/// The physical address `addr`, as `x86_64::PhysAddr::new` builds it.
pub fn phys_addr_new(addr: u64) -> (r: u64)
    requires
        addr < PHYS_ADDR_LIMIT,
    ensures
        r == addr,
{
    match phys_addr_try_new(addr) {
        Some(p) => p,
        None => 0,
    }
}

/// The page size is a power of two.
pub proof fn lemma_page_size_pow2()
    ensures
        is_pow2(PAGE_SIZE),
{
    assert(4096u64 & 4095u64 == 0) by (bit_vector);
}

/// Start of the 4 KiB page that holds `addr`.
pub open spec fn page_base(addr: u64) -> u64 {
    align_down_spec(addr, PAGE_SIZE)
}

/// The page base is the greatest multiple of 4096 not above the address.
pub proof fn lemma_page_base(addr: u64)
    ensures
        page_base(addr) <= addr,
        addr - page_base(addr) < PAGE_SIZE,
        page_base(addr) % PAGE_SIZE == 0,
        page_base(addr) == addr - addr % PAGE_SIZE,
{
    assert(addr & !0xfffu64 <= addr) by (bit_vector);
    assert(addr - (addr & !0xfffu64) < 4096) by (bit_vector);
    assert((addr & !0xfffu64) % 4096 == 0) by (bit_vector);
    assert(addr & !0xfffu64 == addr - addr % 4096) by (bit_vector);
}

/// `x86_64::PhysFrame::<Size4KiB>::containing_address(PhysAddr::new(addr))`,
/// given by its start address.
pub fn frame_containing(addr: u64) -> (r: u64)
    requires
        addr < PHYS_ADDR_LIMIT,
    ensures
        r == page_base(addr),
{
    let a = phys_addr_new(addr);
    proof {
        lemma_page_size_pow2();
    }
    x86_64::align_down(a, PAGE_SIZE)
}

/// `x86_64::structures::paging::Page::<Size4KiB>::containing_address(VirtAddr::new(addr))`,
/// given by its start address.
pub fn page_containing(addr: u64) -> (r: u64)
    requires
        virt_valid(addr),
    ensures
        canonical_virt(addr) matches Some(v) && r == page_base(v),
{
    let v = virt_addr_new(addr);
    proof {
        lemma_page_size_pow2();
    }
    x86_64::align_down(v, PAGE_SIZE)
}

} // verus!
