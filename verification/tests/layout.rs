use sev_ghcb::sev::layout::{
    GHCBField, OFF_BUFFER, OFF_CPL, OFF_DR7, OFF_RAX, OFF_RBX, OFF_RCX, OFF_RDX, OFF_SW_EXIT_CODE,
    OFF_SW_EXIT_INFO_1, OFF_SW_EXIT_INFO_2, OFF_SW_SCRATCH, OFF_USAGE, OFF_VALID_BITMAP,
    OFF_VERSION, OFF_X87_STATE_GPA, OFF_XCR0, OFF_XSS,
};
use sev_ghcb::sev::GHCB;
use sev_ghcb::types::PAGE_SIZE;

fn check_offset_cpl() {
    assert_eq!(GHCBField::Cpl.offset(), OFF_CPL as usize);
}

fn check_offset_xss() {
    assert_eq!(GHCBField::Xss.offset(), OFF_XSS as usize);
}

fn check_offset_dr7() {
    assert_eq!(GHCBField::Dr7.offset(), OFF_DR7 as usize);
}

fn check_offset_rax() {
    assert_eq!(GHCBField::Rax.offset(), OFF_RAX as usize);
}

fn check_offset_rcx() {
    assert_eq!(GHCBField::Rcx.offset(), OFF_RCX as usize);
}

fn check_offset_rdx() {
    assert_eq!(GHCBField::Rdx.offset(), OFF_RDX as usize);
}

fn check_offset_rbx() {
    assert_eq!(GHCBField::Rbx.offset(), OFF_RBX as usize);
}

fn check_offset_sw_exit_code() {
    assert_eq!(GHCBField::SwExitCode.offset(), OFF_SW_EXIT_CODE as usize);
}

fn check_offset_sw_exit_info_1() {
    assert_eq!(GHCBField::SwExitInfo1.offset(), OFF_SW_EXIT_INFO_1 as usize);
}

fn check_offset_sw_exit_info_2() {
    assert_eq!(GHCBField::SwExitInfo2.offset(), OFF_SW_EXIT_INFO_2 as usize);
}

fn check_offset_sw_scratch() {
    assert_eq!(GHCBField::SwScratch.offset(), OFF_SW_SCRATCH as usize);
}

fn check_offset_xcr0() {
    assert_eq!(GHCBField::Xcr0.offset(), OFF_XCR0 as usize);
}

fn check_offset_valid_bitmap() {
    assert_eq!(GHCBField::ValidBitmap.offset(), OFF_VALID_BITMAP as usize);
}

fn check_offset_x87_state_gpa() {
    assert_eq!(GHCBField::X87StateGpa.offset(), OFF_X87_STATE_GPA as usize);
}

fn check_offset_buffer() {
    assert_eq!(GHCBField::Buffer.offset(), OFF_BUFFER as usize);
}

fn check_offset_version() {
    assert_eq!(GHCBField::Version.offset(), OFF_VERSION as usize);
}

fn check_offset_usage() {
    assert_eq!(GHCBField::Usage.offset(), OFF_USAGE as usize);
}

#[test]
fn check_offsets() {
    check_offset_cpl();
    check_offset_xss();
    check_offset_dr7();
    check_offset_rax();
    check_offset_rcx();
    check_offset_rdx();
    check_offset_rbx();
    check_offset_sw_exit_code();
    check_offset_sw_exit_info_1();
    check_offset_sw_exit_info_2();
    check_offset_sw_scratch();
    check_offset_xcr0();
    check_offset_valid_bitmap();
    check_offset_x87_state_gpa();
    check_offset_buffer();
    check_offset_version();
    check_offset_usage();
    println!("GHCB Offsets OK");
}

#[test]
fn declared_offsets_have_their_values() {
    assert_eq!(OFF_CPL, 0xcb);
    assert_eq!(OFF_XSS, 0x140);
    assert_eq!(OFF_DR7, 0x160);
    assert_eq!(OFF_RAX, 0x1f8);
    assert_eq!(OFF_RCX, 0x308);
    assert_eq!(OFF_RDX, 0x310);
    assert_eq!(OFF_RBX, 0x318);
    assert_eq!(OFF_SW_EXIT_CODE, 0x390);
    assert_eq!(OFF_SW_EXIT_INFO_1, 0x398);
    assert_eq!(OFF_SW_EXIT_INFO_2, 0x3a0);
    assert_eq!(OFF_SW_SCRATCH, 0x3a8);
    assert_eq!(OFF_XCR0, 0x3e8);
    assert_eq!(OFF_VALID_BITMAP, 0x3f0);
    assert_eq!(OFF_X87_STATE_GPA, 0x400);
    assert_eq!(OFF_BUFFER, 0x800);
    assert_eq!(OFF_VERSION, 0xffa);
    assert_eq!(OFF_USAGE, 0xffc);
}

#[test]
fn reserved_fields_stand_between_the_others() {
    assert_eq!(GHCBField::Reserved1.offset(), 0);
    assert_eq!(GHCBField::Reserved2.offset(), 0xcc);
    assert_eq!(GHCBField::Reserved6.offset(), 0x300);
    assert_eq!(GHCBField::Reserved9.offset(), 0x408);
    assert_eq!(GHCBField::Reserved10.offset(), 0xff0);
}

/// A page with every byte different from its neighbours.
fn patterned_page() -> [u8; PAGE_SIZE] {
    let mut page = [0u8; PAGE_SIZE];
    for i in 0..PAGE_SIZE {
        page[i] = (i * 7 + i / 256 * 13 + 1) as u8;
    }
    page
}

#[test]
fn page_read_and_written_again_is_the_same() {
    let page = patterned_page();
    assert_eq!(GHCB::from_page(&page).to_page(), page);

    let zeros = [0u8; PAGE_SIZE];
    assert_eq!(GHCB::from_page(&zeros).to_page(), zeros);

    let ones = [0xffu8; PAGE_SIZE];
    assert_eq!(GHCB::from_page(&ones).to_page(), ones);
}

#[test]
fn every_single_bit_of_a_page_is_kept() {
    for i in 0..PAGE_SIZE {
        let mut page = [0u8; PAGE_SIZE];
        page[i] = 1 << (i % 8);
        assert_eq!(GHCB::from_page(&page).to_page(), page);
    }
    for i in OFF_VALID_BITMAP as usize..OFF_VALID_BITMAP as usize + 16 {
        for bit in 0..8 {
            let mut page = [0u8; PAGE_SIZE];
            page[i] = 1 << bit;
            assert_eq!(GHCB::from_page(&page).to_page(), page);
        }
    }
}
