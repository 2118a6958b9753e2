use sev_ghcb::sev::layout::{
    OFF_CPL, OFF_DR7, OFF_RAX, OFF_RBX, OFF_RCX, OFF_RDX, OFF_SW_EXIT_CODE, OFF_SW_EXIT_INFO_1,
    OFF_SW_EXIT_INFO_2, OFF_SW_SCRATCH, OFF_USAGE, OFF_VALID_BITMAP, OFF_VERSION,
    OFF_X87_STATE_GPA, OFF_XCR0, OFF_XSS,
};
use sev_ghcb::sev::platform::{CallSequence, PlatformCall, Step};
use sev_ghcb::sev::{sev_init, GHCBExitCode, GHCBIOSize, GHCB};
use sev_ghcb::types::PAGE_SIZE;

const PADDR: usize = 0x0012_3000;
const VADDR: usize = 0xffff_8000;

fn empty() -> GHCB {
    GHCB::from_page(&[0u8; PAGE_SIZE])
}

fn u64_at(page: &[u8], offset: u16) -> u64 {
    let at = offset as usize;
    let mut bytes = [0u8; 8];
    bytes.copy_from_slice(&page[at..at + 8]);
    u64::from_le_bytes(bytes)
}

/// The bitmap words of a page.
fn bitmap(page: &[u8]) -> (u64, u64) {
    (u64_at(page, OFF_VALID_BITMAP), u64_at(page, OFF_VALID_BITMAP + 8))
}

/// The GHCB after the hypervisor has changed some of its quadwords.
fn answered(ghcb: &GHCB, changes: &[(u16, u64)]) -> GHCB {
    let mut page = ghcb.to_page();
    for (offset, value) in changes {
        let at = *offset as usize;
        page[at..at + 8].copy_from_slice(&value.to_le_bytes());
    }
    GHCB::from_page(&page)
}

/// The calls of a sequence whose outcomes are given, and how it ends.
fn run(
    mut sequence: CallSequence,
    outcomes: &[Result<(), ()>],
) -> (Vec<PlatformCall>, Result<(), ()>) {
    let mut calls = Vec::new();
    loop {
        match sequence.current() {
            Step::Call(call) => {
                let outcome = outcomes.get(calls.len()).copied().unwrap_or(Ok(()));
                calls.push(call);
                sequence.advance(outcome);
            }
            Step::Finished(result) => return (calls, result),
        }
    }
}

fn exit() -> Vec<PlatformCall> {
    vec![PlatformCall::WriteGhcbMsr { value: PADDR as u64 }, PlatformCall::VmgExit]
}

#[test]
fn sev_init_reads_the_status() {
    assert_eq!(run(sev_init(), &[]), (vec![PlatformCall::SevStatusInit], Ok(())));
    assert_eq!(run(sev_init(), &[Err(())]), (vec![PlatformCall::SevStatusInit], Ok(())));
}

fn init_calls() -> Vec<PlatformCall> {
    vec![
        PlatformCall::Pvalidate { vaddr: VADDR, huge_page: false, valid: false },
        PlatformCall::InvalidatePage { paddr: PADDR },
        PlatformCall::RegisterGhcb { paddr: PADDR },
        PlatformCall::MapPageShared { vaddr: VADDR },
        PlatformCall::FlushTlbGlobal,
    ]
}

fn shutdown_calls() -> Vec<PlatformCall> {
    vec![
        PlatformCall::MapPageEncrypted { vaddr: VADDR },
        PlatformCall::RegisterGhcb { paddr: 0 },
        PlatformCall::ValidatePage { paddr: PADDR },
        PlatformCall::Pvalidate { vaddr: VADDR, huge_page: false, valid: true },
    ]
}

#[test]
fn init_makes_its_calls_in_order() {
    let mut ghcb = empty();
    let before = ghcb.to_page();
    assert_eq!(run(ghcb.init(VADDR, PADDR), &[]), (init_calls(), Ok(())));
    assert_eq!(ghcb.to_page(), before);
}

#[test]
fn init_stops_at_the_first_failure() {
    for failing in 0..4 {
        let mut outcomes = vec![Ok(()); 5];
        outcomes[failing] = Err(());
        let expected = init_calls()[..failing + 1].to_vec();
        assert_eq!(run(empty().init(VADDR, PADDR), &outcomes), (expected, Err(())));
    }
}

#[test]
fn init_does_not_depend_on_the_flush() {
    let outcomes = [Ok(()), Ok(()), Ok(()), Ok(()), Err(())];
    assert_eq!(run(empty().init(VADDR, PADDR), &outcomes), (init_calls(), Ok(())));
}

#[test]
fn shutdown_makes_its_calls_in_order() {
    let mut ghcb = empty();
    let before = ghcb.to_page();
    assert_eq!(run(ghcb.shutdown(VADDR, PADDR), &[]), (shutdown_calls(), Ok(())));
    assert_eq!(ghcb.to_page(), before);
}

#[test]
fn shutdown_stops_at_the_first_failure() {
    for failing in 0..4 {
        let mut outcomes = vec![Ok(()); 4];
        outcomes[failing] = Err(());
        let expected = shutdown_calls()[..failing + 1].to_vec();
        assert_eq!(run(empty().shutdown(VADDR, PADDR), &outcomes), (expected, Err(())));
    }
}

#[test]
fn shutdown_undoes_init() {
    // validated, owned by the guest, encrypted, registered
    let mut page = (true, true, true, 0usize);
    let apply = |page: &mut (bool, bool, bool, usize), call: &PlatformCall| match call {
        PlatformCall::Pvalidate { valid, .. } => page.0 = *valid,
        PlatformCall::InvalidatePage { .. } => page.1 = false,
        PlatformCall::ValidatePage { .. } => page.1 = true,
        PlatformCall::MapPageShared { .. } => page.2 = false,
        PlatformCall::MapPageEncrypted { .. } => page.2 = true,
        PlatformCall::RegisterGhcb { paddr } => page.3 = *paddr,
        _ => {}
    };
    for call in run(empty().init(VADDR, PADDR), &[]).0.iter() {
        apply(&mut page, call);
    }
    assert_eq!(page, (false, false, false, PADDR));
    for call in run(empty().shutdown(VADDR, PADDR), &[]).0.iter() {
        apply(&mut page, call);
    }
    assert_eq!(page, (true, true, true, 0));
}

#[test]
fn finished_sequence_stays_finished() {
    let mut sequence = empty().init(VADDR, PADDR);
    sequence.advance(Err(()));
    assert_eq!(sequence.current(), Step::Finished(Err(())));
    sequence.advance(Ok(()));
    assert_eq!(sequence.current(), Step::Finished(Err(())));

    let mut sequence = sev_init();
    sequence.advance(Ok(()));
    assert_eq!(sequence.current(), Step::Finished(Ok(())));
    sequence.advance(Err(()));
    assert_eq!(sequence.current(), Step::Finished(Ok(())));
}

#[test]
fn calls_that_report_failures() {
    assert!(PlatformCall::Pvalidate { vaddr: 0, huge_page: false, valid: true }.can_fail());
    assert!(PlatformCall::InvalidatePage { paddr: 0 }.can_fail());
    assert!(PlatformCall::ValidatePage { paddr: 0 }.can_fail());
    assert!(PlatformCall::RegisterGhcb { paddr: 0 }.can_fail());
    assert!(PlatformCall::MapPageShared { vaddr: 0 }.can_fail());
    assert!(PlatformCall::MapPageEncrypted { vaddr: 0 }.can_fail());
    assert!(!PlatformCall::SevStatusInit.can_fail());
    assert!(!PlatformCall::FlushTlbGlobal.can_fail());
    assert!(!PlatformCall::WriteGhcbMsr { value: 0 }.can_fail());
    assert!(!PlatformCall::VmgExit.can_fail());
    assert!(!PlatformCall::RequestTermination.can_fail());
}

#[test]
fn clear_leaves_only_the_bitmap_valid() {
    let mut ghcb = GHCB::from_page(&[0xff; PAGE_SIZE]);
    ghcb.clear();
    let page = ghcb.to_page();
    assert_eq!(bitmap(&page), (0, 3 << 62));
    for i in 0..PAGE_SIZE {
        if i < 0x3f0 || i >= 0x400 {
            assert_eq!(page[i], 0xff);
        }
    }
    ghcb.clear();
    assert_eq!(ghcb.to_page(), page);
}

/// Checks that a setter writes one quadword and sets one bit of the bitmap.
fn check_setter(set: fn(&mut GHCB, u64), offset: u16, words: (u64, u64)) {
    let mut ghcb = empty();
    set(&mut ghcb, 0x1122_3344_5566_7788);
    let page = ghcb.to_page();
    assert_eq!(u64_at(&page, offset), 0x1122_3344_5566_7788);
    assert_eq!(bitmap(&page), words);
    for i in 0..PAGE_SIZE {
        let at = offset as usize;
        if !(at <= i && i < at + 8) && !(0x3f0 <= i && i < 0x400) {
            assert_eq!(page[i], 0);
        }
    }
}

#[test]
fn setters_write_and_mark_their_field() {
    check_setter(GHCB::set_xss, OFF_XSS, (1 << 40, 0));
    check_setter(GHCB::set_dr7, OFF_DR7, (1 << 44, 0));
    check_setter(GHCB::set_rax, OFF_RAX, (1 << 63, 0));
    check_setter(GHCB::set_rcx, OFF_RCX, (0, 1 << 33));
    check_setter(GHCB::set_rdx, OFF_RDX, (0, 1 << 34));
    check_setter(GHCB::set_rbx, OFF_RBX, (0, 1 << 35));
    check_setter(GHCB::set_sw_scratch, OFF_SW_SCRATCH, (0, 1 << 53));
    check_setter(GHCB::set_sw_xcr0, OFF_XCR0, (0, 1 << 61));
}

#[test]
fn x87_state_marks_the_first_slot() {
    check_setter(GHCB::set_sw_x87_state_gpa, OFF_X87_STATE_GPA, (1, 0));
}

#[test]
fn cpl_is_one_byte() {
    let mut ghcb = GHCB::from_page(&[0xff; PAGE_SIZE]);
    ghcb.clear();
    ghcb.set_cpl(3);
    let page = ghcb.to_page();
    assert_eq!(page[OFF_CPL as usize], 3);
    assert_eq!(page[OFF_CPL as usize - 1], 0xff);
    assert_eq!(page[OFF_CPL as usize + 1], 0xff);
    assert_eq!(bitmap(&page), (1 << 25, 3 << 62));
}

#[test]
fn setters_do_not_disturb_one_another() {
    let mut ghcb = empty();
    ghcb.set_rax(1);
    ghcb.set_rbx(2);
    ghcb.set_rcx(3);
    ghcb.set_rdx(4);
    let page = ghcb.to_page();
    assert_eq!(u64_at(&page, OFF_RAX), 1);
    assert_eq!(u64_at(&page, OFF_RBX), 2);
    assert_eq!(u64_at(&page, OFF_RCX), 3);
    assert_eq!(u64_at(&page, OFF_RDX), 4);
    assert_eq!(bitmap(&page), (1 << 63, 7 << 33));
}

#[test]
fn version_and_usage_share_the_bit_of_the_bitmaps_end() {
    let mut ghcb = empty();
    ghcb.clear();
    let before = bitmap(&ghcb.to_page());
    ghcb.ioio_in(0, GHCBIOSize::Size8, PADDR);
    let after = bitmap(&ghcb.to_page());
    assert_eq!(after.0, before.0);
    assert_eq!(after.1 ^ before.1, 7 << 50);
}

#[test]
fn ioio_in_writes_the_request() {
    let mut ghcb = GHCB::from_page(&[0xff; PAGE_SIZE]);
    let sequence = ghcb.ioio_in(0x3f8, GHCBIOSize::Size8, PADDR);
    assert_eq!(run(sequence, &[]), (exit(), Ok(())));
    let page = ghcb.to_page();
    assert_eq!(u64_at(&page, OFF_SW_EXIT_CODE), 0x7b);
    assert_eq!(u64_at(&page, OFF_SW_EXIT_INFO_1), 0x03f8_0011);
    assert_eq!(u64_at(&page, OFF_SW_EXIT_INFO_2), 0);
    assert_eq!(page[OFF_VERSION as usize..OFF_VERSION as usize + 2], [2, 0]);
    assert_eq!(page[OFF_USAGE as usize..OFF_USAGE as usize + 4], [0, 0, 0, 0]);
    assert_eq!(bitmap(&page), (0, 7 << 50 | 3 << 62));
    assert_eq!(u64_at(&page, OFF_RAX), u64::MAX);
}

#[test]
fn ioio_out_writes_the_request() {
    let mut ghcb = empty();
    let sequence = ghcb.ioio_out(0xcf8, GHCBIOSize::Size32, 0x8000_1234, PADDR);
    assert_eq!(run(sequence, &[]), (exit(), Ok(())));
    let page = ghcb.to_page();
    assert_eq!(u64_at(&page, OFF_SW_EXIT_CODE), GHCBExitCode::IOIO);
    assert_eq!(u64_at(&page, OFF_SW_EXIT_INFO_1), 0x0cf8_0040);
    assert_eq!(u64_at(&page, OFF_SW_EXIT_INFO_2), 0);
    assert_eq!(u64_at(&page, OFF_RAX), 0x8000_1234);
    assert_eq!(bitmap(&page), (1 << 63, 7 << 50 | 3 << 62));
}

fn info(write: bool, port: u16, size: GHCBIOSize) -> u64 {
    let mut ghcb = empty();
    if write {
        ghcb.ioio_out(port, size, 0, PADDR);
    } else {
        ghcb.ioio_in(port, size, PADDR);
    }
    u64_at(&ghcb.to_page(), OFF_SW_EXIT_INFO_1)
}

#[test]
fn access_is_told_by_the_first_argument() {
    assert_eq!(info(false, 0, GHCBIOSize::Size8), 0x11);
    assert_eq!(info(false, 0, GHCBIOSize::Size16), 0x21);
    assert_eq!(info(false, 0, GHCBIOSize::Size32), 0x41);
    assert_eq!(info(true, 0, GHCBIOSize::Size8), 0x10);
    assert_eq!(info(true, 0, GHCBIOSize::Size16), 0x20);
    assert_eq!(info(true, 0, GHCBIOSize::Size32), 0x40);
    assert_eq!(info(false, 0xffff, GHCBIOSize::Size32), 0xffff_0041);
    assert_eq!(info(true, 0x80, GHCBIOSize::Size16), 0x0080_0020);
}

#[test]
fn unanswered_request_fails() {
    let mut ghcb = empty();
    ghcb.ioio_in(0, GHCBIOSize::Size8, PADDR);
    assert_eq!(ghcb.ioio_in_result(), Err(()));
    ghcb.ioio_out(0, GHCBIOSize::Size8, 5, PADDR);
    assert_eq!(ghcb.ioio_out_result(), Err(()));
}

#[test]
fn answered_read_gives_the_value() {
    let mut ghcb = empty();
    ghcb.ioio_in(0x3f8, GHCBIOSize::Size16, PADDR);
    let reply = answered(
        &ghcb,
        &[(OFF_SW_EXIT_INFO_1, 0), (OFF_RAX, 0xabcd), (OFF_VALID_BITMAP, 1 << 63)],
    );
    assert_eq!(reply.ioio_in_result(), Ok(0xabcd));
}

#[test]
fn read_without_a_value_fails() {
    let mut ghcb = empty();
    ghcb.set_rax(77);
    ghcb.ioio_in(0x3f8, GHCBIOSize::Size8, PADDR);
    let reply = answered(&ghcb, &[(OFF_SW_EXIT_INFO_1, 0)]);
    assert_eq!(reply.ioio_in_result(), Err(()));
    assert_eq!(reply.ioio_out_result(), Ok(()));
}

#[test]
fn refused_request_fails() {
    let mut ghcb = empty();
    ghcb.ioio_in(0x3f8, GHCBIOSize::Size8, PADDR);
    let reply = answered(
        &ghcb,
        &[(OFF_SW_EXIT_INFO_1, 1), (OFF_RAX, 5), (OFF_VALID_BITMAP, 1 << 63)],
    );
    assert_eq!(reply.ioio_in_result(), Err(()));
    assert_eq!(reply.ioio_out_result(), Err(()));
}

#[test]
fn reply_without_a_valid_status_fails() {
    let mut ghcb = empty();
    ghcb.ioio_out(0x3f8, GHCBIOSize::Size8, 5, PADDR);
    let reply = answered(&ghcb, &[(OFF_SW_EXIT_INFO_1, 0), (OFF_VALID_BITMAP + 8, 0)]);
    assert_eq!(reply.ioio_out_result(), Err(()));
    assert_eq!(reply.ioio_in_result(), Err(()));
}

#[test]
fn answered_write_succeeds() {
    let mut ghcb = empty();
    ghcb.ioio_out(0x3f8, GHCBIOSize::Size8, 5, PADDR);
    let reply = answered(&ghcb, &[(OFF_SW_EXIT_INFO_1, 0)]);
    assert_eq!(reply.ioio_out_result(), Ok(()));
}
