use sev_ghcb::kernel_launch::{KernelLaunchInfo, LAUNCH_INFO_SIZE};
use sev_ghcb::sev::page_state::{PSC_ENTRIES, PSC_SIZE};
use sev_ghcb::sev::{PageStateChange, PageStateChangeOp};

fn info() -> KernelLaunchInfo {
    KernelLaunchInfo {
        kernel_start: 0x0807_0605_0403_0201,
        kernel_end: 0x20_0000,
        virt_base: 0xffff_ff80_0000_0000,
        cpuid_page: 3,
        secrets_page: 4,
        ghcb: 5,
    }
}

#[test]
fn launch_info_stands_in_order() {
    let image = info().to_bytes();
    assert_eq!(image.len(), 48);
    assert_eq!(image[0..8], [1, 2, 3, 4, 5, 6, 7, 8]);
    assert_eq!(image[8..16], [0, 0, 0x20, 0, 0, 0, 0, 0]);
    assert_eq!(image[16..24], [0, 0, 0, 0, 0x80, 0xff, 0xff, 0xff]);
    assert_eq!(image[24..32], [3, 0, 0, 0, 0, 0, 0, 0]);
    assert_eq!(image[32..40], [4, 0, 0, 0, 0, 0, 0, 0]);
    assert_eq!(image[40..48], [5, 0, 0, 0, 0, 0, 0, 0]);
}

#[test]
fn launch_info_is_read_back() {
    let copy = info();
    let read = KernelLaunchInfo::from_bytes(&copy.to_bytes());
    assert_eq!(read.kernel_start, copy.kernel_start);
    assert_eq!(read.kernel_end, copy.kernel_end);
    assert_eq!(read.virt_base, copy.virt_base);
    assert_eq!(read.cpuid_page, copy.cpuid_page);
    assert_eq!(read.secrets_page, copy.secrets_page);
    assert_eq!(read.ghcb, copy.ghcb);
}

#[test]
fn launch_info_image_is_kept() {
    let mut image = [0u8; LAUNCH_INFO_SIZE];
    for i in 0..LAUNCH_INFO_SIZE {
        image[i] = (i * 5 + 1) as u8;
    }
    assert_eq!(KernelLaunchInfo::from_bytes(&image).to_bytes(), image);
}

#[test]
fn page_state_image_is_kept() {
    let mut image = [0u8; PSC_SIZE];
    for i in 0..PSC_SIZE {
        image[i] = (i * 7 + i / 256 * 13 + 1) as u8;
    }
    assert_eq!(PageStateChange::from_bytes(&image).to_bytes(), image);
    for i in 0..PSC_SIZE {
        let mut image = [0u8; PSC_SIZE];
        image[i] = 1 << (i % 8);
        assert_eq!(PageStateChange::from_bytes(&image).to_bytes(), image);
    }
}

#[test]
fn page_state_change_fills_the_buffer() {
    assert_eq!(PSC_SIZE, 0x7f0);
    assert_eq!(8 + 8 * PSC_ENTRIES, PSC_SIZE);
    assert_eq!(std::mem::size_of::<PageStateChange>(), PSC_SIZE);
}

#[test]
fn page_state_operations_differ() {
    let ops = [
        PageStateChangeOp::PscPrivate,
        PageStateChangeOp::PscShared,
        PageStateChangeOp::PscPsmash,
        PageStateChangeOp::PscUnsmash,
    ];
    for i in 0..4 {
        for j in 0..4 {
            assert_eq!(ops[i] == ops[j], i == j);
        }
    }
}
