use sev_ghcb::sev::layout::{OFF_RAX, OFF_SW_EXIT_INFO_1, OFF_VALID_BITMAP};
use sev_ghcb::sev::platform::{PlatformCall, Step};
use sev_ghcb::sev::{GHCBIOPort, GHCB};
use sev_ghcb::types::PAGE_SIZE;

const PADDR: usize = 0x4000;

fn quadword(ghcb: &GHCB, offset: u16) -> u64 {
    let page = ghcb.to_page();
    let mut bytes = [0u8; 8];
    bytes.copy_from_slice(&page[offset as usize..offset as usize + 8]);
    u64::from_le_bytes(bytes)
}

/// A hypervisor that answers a request with `rax` and this status.
fn answer(ghcb: &mut GHCB, status: u64, rax: u64) {
    let mut page = ghcb.to_page();
    let at = OFF_SW_EXIT_INFO_1 as usize;
    page[at..at + 8].copy_from_slice(&status.to_le_bytes());
    let at = OFF_RAX as usize;
    page[at..at + 8].copy_from_slice(&rax.to_le_bytes());
    page[OFF_VALID_BITMAP as usize + 7] |= 0x80;
    *ghcb = GHCB::from_page(&page);
}

#[test]
fn port_works_on_its_ghcb() {
    let mut ghcb = GHCB::from_page(&[0u8; PAGE_SIZE]);
    let port = GHCBIOPort::new(&mut ghcb);
    port.ghcb.set_rcx(9);
    assert_eq!(quadword(&ghcb, 0x308), 9);
}

#[test]
fn out_puts_the_value_and_the_size() {
    let mut ghcb = GHCB::from_page(&[0u8; PAGE_SIZE]);
    let mut port = GHCBIOPort::new(&mut ghcb);
    let sequence = port.outb(0x3f8, 0xa5, PADDR);
    assert_eq!(
        sequence.current(),
        Step::Call(PlatformCall::WriteGhcbMsr { value: PADDR as u64 })
    );
    assert_eq!(quadword(port.ghcb, OFF_SW_EXIT_INFO_1), 0x03f8_0010);
    assert_eq!(quadword(port.ghcb, OFF_RAX), 0xa5);

    port.outw(0x3f8, 0xbeef, PADDR);
    assert_eq!(quadword(port.ghcb, OFF_SW_EXIT_INFO_1), 0x03f8_0020);
    assert_eq!(quadword(port.ghcb, OFF_RAX), 0xbeef);
}

#[test]
fn in_asks_for_the_size() {
    let mut ghcb = GHCB::from_page(&[0u8; PAGE_SIZE]);
    let mut port = GHCBIOPort::new(&mut ghcb);
    let mut sequence = port.inb(0x60, PADDR);
    sequence.advance(Ok(()));
    assert_eq!(sequence.current(), Step::Call(PlatformCall::VmgExit));
    sequence.advance(Ok(()));
    assert_eq!(sequence.current(), Step::Finished(Ok(())));
    assert_eq!(quadword(port.ghcb, OFF_SW_EXIT_INFO_1), 0x0060_0011);
    port.inw(0x60, PADDR);
    assert_eq!(quadword(port.ghcb, OFF_SW_EXIT_INFO_1), 0x0060_0021);
}

#[test]
fn out_is_followed_by_nothing_or_termination() {
    let mut ghcb = GHCB::from_page(&[0u8; PAGE_SIZE]);
    let mut port = GHCBIOPort::new(&mut ghcb);
    port.outb(0x3f8, 1, PADDR);
    assert_eq!(port.out_result(), Some(PlatformCall::RequestTermination));
    answer(port.ghcb, 0, 0);
    assert_eq!(port.out_result(), None);
    port.outw(0x3f8, 1, PADDR);
    answer(port.ghcb, 2, 0);
    assert_eq!(port.out_result(), Some(PlatformCall::RequestTermination));
}

#[test]
fn in_gives_the_low_part_of_the_value() {
    let mut ghcb = GHCB::from_page(&[0u8; PAGE_SIZE]);
    let mut port = GHCBIOPort::new(&mut ghcb);
    port.inb(0x60, PADDR);
    answer(port.ghcb, 0, 0x1234_5678);
    assert_eq!(port.inb_result(), (0x78, None));
    port.inw(0x60, PADDR);
    answer(port.ghcb, 0, 0x1234_5678);
    assert_eq!(port.inw_result(), (0x5678, None));
}

#[test]
fn refused_in_gives_zero_and_termination() {
    let mut ghcb = GHCB::from_page(&[0u8; PAGE_SIZE]);
    let mut port = GHCBIOPort::new(&mut ghcb);
    port.inb(0x60, PADDR);
    answer(port.ghcb, 1, 0x1234_5678);
    assert_eq!(port.inb_result(), (0, Some(PlatformCall::RequestTermination)));
    assert_eq!(port.inw_result(), (0, Some(PlatformCall::RequestTermination)));
}

#[test]
fn written_value_comes_back() {
    let mut ghcb = GHCB::from_page(&[0u8; PAGE_SIZE]);
    let mut port = GHCBIOPort::new(&mut ghcb);
    for byte in [0u8, 1, 0x7f, 0xff] {
        port.outb(0x80, byte, PADDR);
        let sent = quadword(port.ghcb, OFF_RAX);
        port.inb(0x80, PADDR);
        answer(port.ghcb, 0, sent);
        assert_eq!(port.inb_result(), (byte, None));
    }
    for word in [0u16, 0x100, 0xffff] {
        port.outw(0x80, word, PADDR);
        let sent = quadword(port.ghcb, OFF_RAX);
        port.inw(0x80, PADDR);
        answer(port.ghcb, 0, sent);
        assert_eq!(port.inw_result(), (word, None));
    }
}
