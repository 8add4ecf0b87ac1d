use lessbad::address::{frame_containing, page_containing, phys_addr_new, virt_addr_new};
use lessbad::paging::l4_table_address;

#[test]
fn virt_addr_lower_half_unchanged() {
    assert_eq!(virt_addr_new(0x4444_4444_0000), 0x4444_4444_0000);
    assert_eq!(virt_addr_new(0), 0);
}

#[test]
fn virt_addr_sign_extends_bit_47() {
    assert_eq!(virt_addr_new(0x8000_0000_0000), 0xffff_8000_0000_0000);
    assert_eq!(virt_addr_new(0xffff_8000_0000_1234), 0xffff_8000_0000_1234);
}

#[test]
fn phys_addr_kept() {
    assert_eq!(phys_addr_new(0xf_ffff_ffff_ffff), 0xf_ffff_ffff_ffff);
}

#[test]
fn page_and_frame_alignment() {
    assert_eq!(page_containing(0x4444_4444_0000 + 102_399), 0x4444_4445_8000);
    assert_eq!(page_containing(0x1fff), 0x1000);
    assert_eq!(frame_containing(0x1000), 0x1000);
    assert_eq!(frame_containing(0x2abc), 0x2000);
}

#[test]
fn l4_table_address_adds_offset() {
    assert_eq!(l4_table_address(0x100_0000_0000, 0x1000), 0x100_0000_1000);
    assert_eq!(l4_table_address(0x7fff_ffff_f000, 0x1000), 0xffff_8000_0000_0000);
}
