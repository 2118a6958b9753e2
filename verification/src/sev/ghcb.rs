//! The GHCB: the page through which guest and hypervisor talk.

use vstd::prelude::*;

use crate::bytes;
use crate::sev::bitmap;
use crate::sev::layout;
use crate::sev::layout::{
    GHCBField, OFF_BUFFER, OFF_CPL, OFF_DR7, OFF_RAX, OFF_RBX, OFF_RCX, OFF_RDX, OFF_SW_EXIT_CODE,
    OFF_SW_EXIT_INFO_1, OFF_SW_EXIT_INFO_2, OFF_SW_SCRATCH, OFF_USAGE, OFF_VALID_BITMAP,
    OFF_VERSION, OFF_X87_STATE_GPA, OFF_XCR0, OFF_XSS,
};
use crate::sev::platform::{CallSequence, PlatformCall, Progress};
use crate::types::{PhysAddr, VirtAddr, PAGE_SIZE};

verus! {

/// The guest-hypervisor communication block.
///
/// Its fields stand in the shared page as [`layout`] says. A field counts only
/// if its bit in the valid bitmap is set; who writes a field sets the bit.
pub struct GHCB {
    reserved_1: [u8; 0xcb],
    cpl: u8,
    reserved_2: [u8; 0x74],
    xss: u64,
    reserved_3: [u8; 0x18],
    dr7: u64,
    reserved_4: [u8; 0x90],
    rax: u64,
    reserved_5: [u8; 0x100],
    reserved_6: u64,
    rcx: u64,
    rdx: u64,
    rbx: u64,
    reserved_7: [u8; 0x70],
    sw_exit_code: u64,
    sw_exit_info_1: u64,
    sw_exit_info_2: u64,
    sw_scratch: u64,
    reserved_8: [u8; 0x38],
    xcr0: u64,
    valid_bitmap: [u64; 2],
    x87_state_gpa: u64,
    reserved_9: [u8; 0x3f8],
    buffer: [u8; 0x7f0],
    reserved_10: [u8; 0xa],
    version: u16,
    usage: u32,
}

/// What a [`GHCB`] holds, with its valid bitmap as a set of slots.
pub struct GHCBView {
    pub reserved_1: Seq<u8>,
    pub cpl: u8,
    pub reserved_2: Seq<u8>,
    pub xss: u64,
    pub reserved_3: Seq<u8>,
    pub dr7: u64,
    pub reserved_4: Seq<u8>,
    pub rax: u64,
    pub reserved_5: Seq<u8>,
    pub reserved_6: u64,
    pub rcx: u64,
    pub rdx: u64,
    pub rbx: u64,
    pub reserved_7: Seq<u8>,
    pub sw_exit_code: u64,
    pub sw_exit_info_1: u64,
    pub sw_exit_info_2: u64,
    pub sw_scratch: u64,
    pub reserved_8: Seq<u8>,
    pub xcr0: u64,
    pub valid: Set<int>,
    pub x87_state_gpa: u64,
    pub reserved_9: Seq<u8>,
    pub buffer: Seq<u8>,
    pub reserved_10: Seq<u8>,
    pub version: u16,
    pub usage: u32,
}

impl View for GHCB {
    type V = GHCBView;

    closed spec fn view(&self) -> GHCBView {
        GHCBView {
            reserved_1: self.reserved_1@,
            cpl: self.cpl,
            reserved_2: self.reserved_2@,
            xss: self.xss,
            reserved_3: self.reserved_3@,
            dr7: self.dr7,
            reserved_4: self.reserved_4@,
            rax: self.rax,
            reserved_5: self.reserved_5@,
            reserved_6: self.reserved_6,
            rcx: self.rcx,
            rdx: self.rdx,
            rbx: self.rbx,
            reserved_7: self.reserved_7@,
            sw_exit_code: self.sw_exit_code,
            sw_exit_info_1: self.sw_exit_info_1,
            sw_exit_info_2: self.sw_exit_info_2,
            sw_scratch: self.sw_scratch,
            reserved_8: self.reserved_8@,
            xcr0: self.xcr0,
            valid: bitmap::marked(self.valid_bitmap@),
            x87_state_gpa: self.x87_state_gpa,
            reserved_9: self.reserved_9@,
            buffer: self.buffer@,
            reserved_10: self.reserved_10@,
            version: self.version,
            usage: self.usage,
        }
    }
}

impl GHCBView {
    /// What holds of every GHCB: its arrays have their lengths, and the bitmap
    /// marks only slots that it covers.
    pub open spec fn well_formed(self) -> bool {
        &&& self.reserved_1.len() == 0xcb
        &&& self.reserved_2.len() == 0x74
        &&& self.reserved_3.len() == 0x18
        &&& self.reserved_4.len() == 0x90
        &&& self.reserved_5.len() == 0x100
        &&& self.reserved_7.len() == 0x70
        &&& self.reserved_8.len() == 0x38
        &&& self.reserved_9.len() == 0x3f8
        &&& self.buffer.len() == 0x7f0
        &&& self.reserved_10.len() == 0xa
        &&& forall|s: int| #[trigger]
            self.valid.contains(s) ==> 0 <= s < bitmap::VALID_SLOTS
    }

    /// The bytes of each field, in the order of [`GHCBField`].
    pub open spec fn parts(self) -> Seq<Seq<u8>> {
        seq![
            self.reserved_1,
            bytes::le_bytes(self.cpl as nat, 1),
            self.reserved_2,
            bytes::le_bytes(self.xss as nat, 8),
            self.reserved_3,
            bytes::le_bytes(self.dr7 as nat, 8),
            self.reserved_4,
            bytes::le_bytes(self.rax as nat, 8),
            self.reserved_5,
            bytes::le_bytes(self.reserved_6 as nat, 8),
            bytes::le_bytes(self.rcx as nat, 8),
            bytes::le_bytes(self.rdx as nat, 8),
            bytes::le_bytes(self.rbx as nat, 8),
            self.reserved_7,
            bytes::le_bytes(self.sw_exit_code as nat, 8),
            bytes::le_bytes(self.sw_exit_info_1 as nat, 8),
            bytes::le_bytes(self.sw_exit_info_2 as nat, 8),
            bytes::le_bytes(self.sw_scratch as nat, 8),
            self.reserved_8,
            bytes::le_bytes(self.xcr0 as nat, 8),
            bitmap::bitmap_bytes(self.valid),
            bytes::le_bytes(self.x87_state_gpa as nat, 8),
            self.reserved_9,
            self.buffer,
            self.reserved_10,
            bytes::le_bytes(self.version as nat, 2),
            bytes::le_bytes(self.usage as nat, 4),
        ]
    }

    /// The page that holds this: its fields one behind the other.
    pub open spec fn page(self) -> Seq<u8> {
        layout::concat(self.parts())
    }

    /// What a page holds.
    pub open spec fn of_page(page: Seq<u8>) -> GHCBView {
        GHCBView {
            reserved_1: GHCBField::Reserved1.of_page(page),
            cpl: bytes::le_value(GHCBField::Cpl.of_page(page)) as u8,
            reserved_2: GHCBField::Reserved2.of_page(page),
            xss: bytes::le_value(GHCBField::Xss.of_page(page)) as u64,
            reserved_3: GHCBField::Reserved3.of_page(page),
            dr7: bytes::le_value(GHCBField::Dr7.of_page(page)) as u64,
            reserved_4: GHCBField::Reserved4.of_page(page),
            rax: bytes::le_value(GHCBField::Rax.of_page(page)) as u64,
            reserved_5: GHCBField::Reserved5.of_page(page),
            reserved_6: bytes::le_value(GHCBField::Reserved6.of_page(page)) as u64,
            rcx: bytes::le_value(GHCBField::Rcx.of_page(page)) as u64,
            rdx: bytes::le_value(GHCBField::Rdx.of_page(page)) as u64,
            rbx: bytes::le_value(GHCBField::Rbx.of_page(page)) as u64,
            reserved_7: GHCBField::Reserved7.of_page(page),
            sw_exit_code: bytes::le_value(GHCBField::SwExitCode.of_page(page)) as u64,
            sw_exit_info_1: bytes::le_value(GHCBField::SwExitInfo1.of_page(page)) as u64,
            sw_exit_info_2: bytes::le_value(GHCBField::SwExitInfo2.of_page(page)) as u64,
            sw_scratch: bytes::le_value(GHCBField::SwScratch.of_page(page)) as u64,
            reserved_8: GHCBField::Reserved8.of_page(page),
            xcr0: bytes::le_value(GHCBField::Xcr0.of_page(page)) as u64,
            valid: bitmap::marked_in_bytes(GHCBField::ValidBitmap.of_page(page)),
            x87_state_gpa: bytes::le_value(GHCBField::X87StateGpa.of_page(page)) as u64,
            reserved_9: GHCBField::Reserved9.of_page(page),
            buffer: GHCBField::Buffer.of_page(page),
            reserved_10: GHCBField::Reserved10.of_page(page),
            version: bytes::le_value(GHCBField::Version.of_page(page)) as u16,
            usage: bytes::le_value(GHCBField::Usage.of_page(page)) as u32,
        }
    }

    /// The same, with the field at `offset` marked valid.
    pub open spec fn with_valid(self, offset: u16) -> GHCBView {
        GHCBView { valid: self.valid.insert(bitmap::slot_of(offset)), ..self }
    }

    /// Whether the field at `offset` is marked valid.
    pub open spec fn has_valid(self, offset: u16) -> bool {
        self.valid.contains(bitmap::slot_of(offset))
    }

    /// The same, with nothing marked valid but the valid bitmap itself.
    pub open spec fn cleared(self) -> GHCBView {
        GHCBView {
            valid: set![
                bitmap::slot_of(OFF_VALID_BITMAP),
                bitmap::slot_of((OFF_VALID_BITMAP + 8) as u16),
            ],
            ..self
        }
    }

    /// The same, with `rax` written.
    pub open spec fn with_rax(self, rax: u64) -> GHCBView {
        GHCBView { rax, ..self }.with_valid(OFF_RAX)
    }

    /// The same, with a request to the hypervisor written: version 2 of the
    /// protocol, the standard page format, the exit code and its two arguments.
    pub open spec fn with_exit(
        self,
        exit_code: u64,
        exit_info_1: u64,
        exit_info_2: u64,
    ) -> GHCBView {
        GHCBView {
            version: 2,
            usage: 0,
            sw_exit_code: exit_code,
            sw_exit_info_1: exit_info_1,
            sw_exit_info_2: exit_info_2,
            valid: self.valid.union(
                set![
                    bitmap::slot_of(OFF_VERSION),
                    bitmap::slot_of(OFF_USAGE),
                    bitmap::slot_of(OFF_SW_EXIT_CODE),
                    bitmap::slot_of(OFF_SW_EXIT_INFO_1),
                    bitmap::slot_of(OFF_SW_EXIT_INFO_2),
                ],
            ),
            ..self
        }
    }

    /// The same, with the request to read `port` written.
    pub open spec fn read_request(self, port: u16, size: GHCBIOSize) -> GHCBView {
        self.cleared().with_exit(GHCBExitCode::IOIO, io_info(true, port, size) as u64, 0)
    }

    /// The same, with the request to write `value` to `port` written.
    pub open spec fn write_request(self, port: u16, size: GHCBIOSize, value: u64) -> GHCBView {
        self.cleared().with_rax(value).with_exit(
            GHCBExitCode::IOIO,
            io_info(false, port, size) as u64,
            0,
        )
    }

    /// Whether the hypervisor reports that it has done what was asked.
    pub open spec fn succeeded(self) -> bool {
        self.has_valid(OFF_SW_EXIT_INFO_1) && self.sw_exit_info_1 == 0
    }

    /// What a request to read a port has come to.
    pub open spec fn io_result(self) -> Result<u64, ()> {
        if self.succeeded() && self.has_valid(OFF_RAX) {
            Ok(self.rax)
        } else {
            Err(())
        }
    }
}

impl GHCB {
    /// The page that holds this GHCB.
    pub fn to_page(&self) -> (page: [u8; PAGE_SIZE])
        ensures
            page@ == self@.page(),
    {
        let ghost parts = self@.parts();
        let mut page = [0u8; PAGE_SIZE];
        assert(page@.take(0) =~= Seq::empty());
        bytes::write_bytes(&mut page, 0, &self.reserved_1);
        bytes::write_le(&mut page, OFF_CPL as usize, self.cpl as u64, 1);
        bytes::write_bytes(&mut page, 0xcc, &self.reserved_2);
        bytes::write_le(&mut page, OFF_XSS as usize, self.xss, 8);
        bytes::write_bytes(&mut page, 0x148, &self.reserved_3);
        bytes::write_le(&mut page, OFF_DR7 as usize, self.dr7, 8);
        bytes::write_bytes(&mut page, 0x168, &self.reserved_4);
        bytes::write_le(&mut page, OFF_RAX as usize, self.rax, 8);
        bytes::write_bytes(&mut page, 0x200, &self.reserved_5);
        bytes::write_le(&mut page, 0x300, self.reserved_6, 8);
        bytes::write_le(&mut page, OFF_RCX as usize, self.rcx, 8);
        bytes::write_le(&mut page, OFF_RDX as usize, self.rdx, 8);
        bytes::write_le(&mut page, OFF_RBX as usize, self.rbx, 8);
        bytes::write_bytes(&mut page, 0x320, &self.reserved_7);
        bytes::write_le(&mut page, OFF_SW_EXIT_CODE as usize, self.sw_exit_code, 8);
        bytes::write_le(&mut page, OFF_SW_EXIT_INFO_1 as usize, self.sw_exit_info_1, 8);
        bytes::write_le(&mut page, OFF_SW_EXIT_INFO_2 as usize, self.sw_exit_info_2, 8);
        bytes::write_le(&mut page, OFF_SW_SCRATCH as usize, self.sw_scratch, 8);
        bytes::write_bytes(&mut page, 0x3b0, &self.reserved_8);
        bytes::write_le(&mut page, OFF_XCR0 as usize, self.xcr0, 8);
        bitmap::write_bitmap(&mut page, OFF_VALID_BITMAP as usize, &self.valid_bitmap);
        bytes::write_le(&mut page, OFF_X87_STATE_GPA as usize, self.x87_state_gpa, 8);
        bytes::write_bytes(&mut page, 0x408, &self.reserved_9);
        bytes::write_bytes(&mut page, OFF_BUFFER as usize, &self.buffer);
        bytes::write_bytes(&mut page, 0xff0, &self.reserved_10);
        bytes::write_le(&mut page, OFF_VERSION as usize, self.version as u64, 2);
        bytes::write_le(&mut page, OFF_USAGE as usize, self.usage as u64, 4);
        proof {
            assert(parts.take(0) =~= Seq::empty());
            layout::lemma_concat_next(parts, 0);
            layout::lemma_concat_next(parts, 1);
            layout::lemma_concat_next(parts, 2);
            layout::lemma_concat_next(parts, 3);
            layout::lemma_concat_next(parts, 4);
            layout::lemma_concat_next(parts, 5);
            layout::lemma_concat_next(parts, 6);
            layout::lemma_concat_next(parts, 7);
            layout::lemma_concat_next(parts, 8);
            layout::lemma_concat_next(parts, 9);
            layout::lemma_concat_next(parts, 10);
            layout::lemma_concat_next(parts, 11);
            layout::lemma_concat_next(parts, 12);
            layout::lemma_concat_next(parts, 13);
            layout::lemma_concat_next(parts, 14);
            layout::lemma_concat_next(parts, 15);
            layout::lemma_concat_next(parts, 16);
            layout::lemma_concat_next(parts, 17);
            layout::lemma_concat_next(parts, 18);
            layout::lemma_concat_next(parts, 19);
            layout::lemma_concat_next(parts, 20);
            layout::lemma_concat_next(parts, 21);
            layout::lemma_concat_next(parts, 22);
            layout::lemma_concat_next(parts, 23);
            layout::lemma_concat_next(parts, 24);
            layout::lemma_concat_next(parts, 25);
            layout::lemma_concat_next(parts, 26);
            assert(parts.take(27) =~= parts);
            assert(page@.take(PAGE_SIZE as int) =~= page@);
        }
        page
    }

    /// The GHCB that a page holds.
    pub fn from_page(page: &[u8; PAGE_SIZE]) -> (ghcb: GHCB)
        ensures
            ghcb@ == GHCBView::of_page(page@),
    {
        proof {
            layout::lemma_field_starts();
            bytes::lemma_pow256_values();
            bytes::lemma_le_value_bound(GHCBField::Cpl.of_page(page@));
            bytes::lemma_le_value_bound(GHCBField::Xss.of_page(page@));
            bytes::lemma_le_value_bound(GHCBField::Dr7.of_page(page@));
            bytes::lemma_le_value_bound(GHCBField::Rax.of_page(page@));
            bytes::lemma_le_value_bound(GHCBField::Reserved6.of_page(page@));
            bytes::lemma_le_value_bound(GHCBField::Rcx.of_page(page@));
            bytes::lemma_le_value_bound(GHCBField::Rdx.of_page(page@));
            bytes::lemma_le_value_bound(GHCBField::Rbx.of_page(page@));
            bytes::lemma_le_value_bound(GHCBField::SwExitCode.of_page(page@));
            bytes::lemma_le_value_bound(GHCBField::SwExitInfo1.of_page(page@));
            bytes::lemma_le_value_bound(GHCBField::SwExitInfo2.of_page(page@));
            bytes::lemma_le_value_bound(GHCBField::SwScratch.of_page(page@));
            bytes::lemma_le_value_bound(GHCBField::Xcr0.of_page(page@));
            bytes::lemma_le_value_bound(GHCBField::X87StateGpa.of_page(page@));
            bytes::lemma_le_value_bound(GHCBField::Version.of_page(page@));
            bytes::lemma_le_value_bound(GHCBField::Usage.of_page(page@));
        }
        GHCB {
            reserved_1: bytes::read_bytes(page, 0x0),
            cpl: bytes::read_le(page, OFF_CPL as usize, 1) as u8,
            reserved_2: bytes::read_bytes(page, 0xcc),
            xss: bytes::read_le(page, OFF_XSS as usize, 8),
            reserved_3: bytes::read_bytes(page, 0x148),
            dr7: bytes::read_le(page, OFF_DR7 as usize, 8),
            reserved_4: bytes::read_bytes(page, 0x168),
            rax: bytes::read_le(page, OFF_RAX as usize, 8),
            reserved_5: bytes::read_bytes(page, 0x200),
            reserved_6: bytes::read_le(page, 0x300, 8),
            rcx: bytes::read_le(page, OFF_RCX as usize, 8),
            rdx: bytes::read_le(page, OFF_RDX as usize, 8),
            rbx: bytes::read_le(page, OFF_RBX as usize, 8),
            reserved_7: bytes::read_bytes(page, 0x320),
            sw_exit_code: bytes::read_le(page, OFF_SW_EXIT_CODE as usize, 8),
            sw_exit_info_1: bytes::read_le(page, OFF_SW_EXIT_INFO_1 as usize, 8),
            sw_exit_info_2: bytes::read_le(page, OFF_SW_EXIT_INFO_2 as usize, 8),
            sw_scratch: bytes::read_le(page, OFF_SW_SCRATCH as usize, 8),
            reserved_8: bytes::read_bytes(page, 0x3b0),
            xcr0: bytes::read_le(page, OFF_XCR0 as usize, 8),
            valid_bitmap: bitmap::read_bitmap(page, OFF_VALID_BITMAP as usize),
            x87_state_gpa: bytes::read_le(page, OFF_X87_STATE_GPA as usize, 8),
            reserved_9: bytes::read_bytes(page, 0x408),
            buffer: bytes::read_bytes(page, OFF_BUFFER as usize),
            reserved_10: bytes::read_bytes(page, 0xff0),
            version: bytes::read_le(page, OFF_VERSION as usize, 2) as u16,
            usage: bytes::read_le(page, OFF_USAGE as usize, 4) as u32,
        }
    }
}

/// Every GHCB is well-formed, whichever way it has come about.
pub proof fn law_ghcb_is_well_formed(ghcb: &GHCB)
    ensures
        ghcb@.well_formed(),
{
}

/// The bytes of each field are as many as the field is long.
pub proof fn lemma_parts_fit(v: GHCBView)
    requires
        v.well_formed(),
    ensures
        v.parts().len() == layout::FIELD_COUNT,
        layout::parts_fit(v.parts()),
{
    bytes::lemma_le_bytes_len(v.cpl as nat, 1);
    bytes::lemma_le_bytes_len(v.xss as nat, 8);
    bytes::lemma_le_bytes_len(v.dr7 as nat, 8);
    bytes::lemma_le_bytes_len(v.rax as nat, 8);
    bytes::lemma_le_bytes_len(v.reserved_6 as nat, 8);
    bytes::lemma_le_bytes_len(v.rcx as nat, 8);
    bytes::lemma_le_bytes_len(v.rdx as nat, 8);
    bytes::lemma_le_bytes_len(v.rbx as nat, 8);
    bytes::lemma_le_bytes_len(v.sw_exit_code as nat, 8);
    bytes::lemma_le_bytes_len(v.sw_exit_info_1 as nat, 8);
    bytes::lemma_le_bytes_len(v.sw_exit_info_2 as nat, 8);
    bytes::lemma_le_bytes_len(v.sw_scratch as nat, 8);
    bytes::lemma_le_bytes_len(v.xcr0 as nat, 8);
    bytes::lemma_le_bytes_len(v.x87_state_gpa as nat, 8);
    bytes::lemma_le_bytes_len(v.version as nat, 2);
    bytes::lemma_le_bytes_len(v.usage as nat, 4);
}

/// Codes of the exits to the hypervisor.
pub struct GHCBExitCode;

impl GHCBExitCode {
    /// An IN or OUT instruction.
    pub const IOIO: u64 = 0x7b;
}

/// How wide a port access is.
#[derive(Clone, Copy, Debug, PartialEq, Eq, Structural)]
pub enum GHCBIOSize {
    Size8,
    Size16,
    Size32,
}

impl GHCBIOSize {
    /// The flag that stands for this size in the first argument of a port
    /// access.
    pub open spec fn flag(self) -> int {
        match self {
            GHCBIOSize::Size8 => 0x10,
            GHCBIOSize::Size16 => 0x20,
            GHCBIOSize::Size32 => 0x40,
        }
    }
}

/// The first argument of a port access: the port in bits 16 to 31, the size in
/// bits 4 to 6, and bit 0 set for IN.
pub open spec fn io_info(input: bool, port: u16, size: GHCBIOSize) -> int {
    port * 0x10000 + size.flag() + (if input {
        1int
    } else {
        0int
    })
}

/// The calls that hand the GHCB at `paddr` to the hypervisor.
pub open spec fn exit_calls(paddr: PhysAddr) -> Seq<PlatformCall> {
    seq![PlatformCall::WriteGhcbMsr { value: paddr as u64 }, PlatformCall::VmgExit]
}

/// The calls that make a private page a GHCB.
pub open spec fn init_calls(vaddr: VirtAddr, paddr: PhysAddr) -> Seq<PlatformCall> {
    seq![
        PlatformCall::Pvalidate { vaddr, huge_page: false, valid: false },
        PlatformCall::InvalidatePage { paddr },
        PlatformCall::RegisterGhcb { paddr },
        PlatformCall::MapPageShared { vaddr },
        PlatformCall::FlushTlbGlobal,
    ]
}

/// The calls that make a GHCB a private page again.
pub open spec fn shutdown_calls(vaddr: VirtAddr, paddr: PhysAddr) -> Seq<PlatformCall> {
    seq![
        PlatformCall::MapPageEncrypted { vaddr },
        PlatformCall::RegisterGhcb { paddr: 0 },
        PlatformCall::ValidatePage { paddr },
        PlatformCall::Pvalidate { vaddr, huge_page: false, valid: true },
    ]
}

impl GHCB {
    /// Makes the page of this GHCB, at `vaddr` and `paddr`, shared with the
    /// hypervisor. The sequence succeeds once the page is ready for use; its
    /// contents are not touched.
    pub fn init(&mut self, vaddr: VirtAddr, paddr: PhysAddr) -> (sequence: CallSequence)
        ensures
            *final(self) == *old(self),
            sequence@ == Progress::start(init_calls(vaddr, paddr)),
    {
        let calls = [
            // Make page invalid
            PlatformCall::Pvalidate { vaddr, huge_page: false, valid: false },
            // Let the hypervisor take the page back
            PlatformCall::InvalidatePage { paddr },
            // Register GHCB GPA
            PlatformCall::RegisterGhcb { paddr },
            // Map page unencrypted
            PlatformCall::MapPageShared { vaddr },
            PlatformCall::FlushTlbGlobal,
        ];
        assert(calls@ =~= init_calls(vaddr, paddr));
        CallSequence::new(calls)
    }

    /// Makes the page of this GHCB, at `vaddr` and `paddr`, private to the
    /// guest again.
    pub fn shutdown(&mut self, vaddr: VirtAddr, paddr: PhysAddr) -> (sequence: CallSequence)
        ensures
            *final(self) == *old(self),
            sequence@ == Progress::start(shutdown_calls(vaddr, paddr)),
    {
        let calls = [
            // Re-encrypt page
            PlatformCall::MapPageEncrypted { vaddr },
            // Unregister GHCB PA
            PlatformCall::RegisterGhcb { paddr: 0 },
            // Let the hypervisor hand the page over
            PlatformCall::ValidatePage { paddr },
            // Make page guest-valid
            PlatformCall::Pvalidate { vaddr, huge_page: false, valid: true },
        ];
        assert(calls@ =~= shutdown_calls(vaddr, paddr));
        CallSequence::new(calls)
    }

    /// Marks everything invalid but the valid bitmap itself.
    pub fn clear(&mut self)
        ensures
            final(self)@ == old(self)@.cleared(),
    {
        // Clear valid bitmap
        self.valid_bitmap[0] = 0;
        self.valid_bitmap[1] = 0;
        proof {
            assert(self.valid_bitmap@ =~= seq![0u64, 0u64]);
            bitmap::lemma_none_marked(self.valid_bitmap@);
        }
        // Mark valid_bitmap valid
        self.set_valid(OFF_VALID_BITMAP);
        self.set_valid(OFF_VALID_BITMAP + 8);
        assert(self@.valid =~= old(self)@.cleared().valid);
    }

    /// Marks the field at `offset` valid.
    fn set_valid(&mut self, offset: u16)
        ensures
            final(self)@ == old(self)@.with_valid(offset),
    {
        let bit: usize = (offset as usize >> 3) & 0x3f;
        let index: usize = (offset as usize >> 9) & 0x1;
        proof {
            bitmap::lemma_slot_position(offset, bit, index);
        }
        let mask: u64 = 1 << bit;
        proof {
            bitmap::lemma_mark(self.valid_bitmap@, bitmap::slot_of(offset), mask);
        }
        self.valid_bitmap[index] |= mask;
    }

    /// Whether the field at `offset` is marked valid.
    fn is_valid(&self, offset: u16) -> (valid: bool)
        ensures
            valid == self@.has_valid(offset),
    {
        let bit: usize = (offset as usize >> 3) & 0x3f;
        let index: usize = (offset as usize >> 9) & 0x1;
        proof {
            bitmap::lemma_slot_position(offset, bit, index);
        }
        let mask: u64 = 1 << bit;
        proof {
            bitmap::lemma_test(self.valid_bitmap@[index as int], bit as int, mask);
        }
        (self.valid_bitmap[index] & mask) == mask
    }

    /// Writes a request to the hypervisor, and says how to hand it over.
    /// [`GHCB::exit_result`] tells what has come of it.
    fn vmgexit(
        &mut self,
        exit_code: u64,
        exit_info_1: u64,
        exit_info_2: u64,
        paddr: PhysAddr,
    ) -> (sequence: CallSequence)
        ensures
            final(self)@ == old(self)@.with_exit(exit_code, exit_info_1, exit_info_2),
            sequence@ == Progress::start(exit_calls(paddr)),
    {
        // GHCB is version 2
        self.version = 2;
        self.set_valid(OFF_VERSION);

        // GHCB follows standard format
        self.usage = 0;
        self.set_valid(OFF_USAGE);

        self.sw_exit_code = exit_code;
        self.set_valid(OFF_SW_EXIT_CODE);

        self.sw_exit_info_1 = exit_info_1;
        self.set_valid(OFF_SW_EXIT_INFO_1);

        self.sw_exit_info_2 = exit_info_2;
        self.set_valid(OFF_SW_EXIT_INFO_2);

        assert(self@.valid =~= old(self)@.with_exit(exit_code, exit_info_1, exit_info_2).valid);

        let calls = [
            PlatformCall::WriteGhcbMsr { value: paddr as u64 },
            PlatformCall::VmgExit,
        ];
        assert(calls@ =~= exit_calls(paddr));
        CallSequence::new(calls)
    }

    /// Whether the hypervisor has done what was asked, as the GHCB says after
    /// the exit.
    fn exit_result(&self) -> (result: Result<(), ()>)
        ensures
            result is Ok <==> self@.succeeded(),
    {
        if self.is_valid(OFF_SW_EXIT_INFO_1) && self.sw_exit_info_1 == 0 {
            Ok(())
        } else {
            Err(())
        }
    }

    /// Writes the privilege level and marks it valid.
    pub fn set_cpl(&mut self, cpl: u8)
        ensures
            final(self)@ == (GHCBView { cpl, ..old(self)@ }).with_valid(OFF_CPL),
    {
        self.cpl = cpl;
        self.set_valid(OFF_CPL);
    }

    /// Writes debug register 7 and marks it valid.
    pub fn set_dr7(&mut self, dr7: u64)
        ensures
            final(self)@ == (GHCBView { dr7, ..old(self)@ }).with_valid(OFF_DR7),
    {
        self.dr7 = dr7;
        self.set_valid(OFF_DR7);
    }

    /// Writes the extended supervisor state mask and marks it valid.
    pub fn set_xss(&mut self, xss: u64)
        ensures
            final(self)@ == (GHCBView { xss, ..old(self)@ }).with_valid(OFF_XSS),
    {
        self.xss = xss;
        self.set_valid(OFF_XSS);
    }

    /// Writes register rax and marks it valid.
    pub fn set_rax(&mut self, rax: u64)
        ensures
            final(self)@ == old(self)@.with_rax(rax),
    {
        self.rax = rax;
        self.set_valid(OFF_RAX);
    }

    /// Writes register rcx and marks it valid.
    pub fn set_rcx(&mut self, rcx: u64)
        ensures
            final(self)@ == (GHCBView { rcx, ..old(self)@ }).with_valid(OFF_RCX),
    {
        self.rcx = rcx;
        self.set_valid(OFF_RCX);
    }

    /// Writes register rdx and marks it valid.
    pub fn set_rdx(&mut self, rdx: u64)
        ensures
            final(self)@ == (GHCBView { rdx, ..old(self)@ }).with_valid(OFF_RDX),
    {
        self.rdx = rdx;
        self.set_valid(OFF_RDX);
    }

    /// Writes register rbx and marks it valid.
    pub fn set_rbx(&mut self, rbx: u64)
        ensures
            final(self)@ == (GHCBView { rbx, ..old(self)@ }).with_valid(OFF_RBX),
    {
        self.rbx = rbx;
        self.set_valid(OFF_RBX);
    }

    /// Writes the address of the scratch area and marks it valid.
    pub fn set_sw_scratch(&mut self, scratch: u64)
        ensures
            final(self)@ == (GHCBView { sw_scratch: scratch, ..old(self)@ }).with_valid(
                OFF_SW_SCRATCH,
            ),
    {
        self.sw_scratch = scratch;
        self.set_valid(OFF_SW_SCRATCH);
    }

    /// Writes extended control register 0 and marks it valid.
    pub fn set_sw_xcr0(&mut self, xcr0: u64)
        ensures
            final(self)@ == (GHCBView { xcr0, ..old(self)@ }).with_valid(OFF_XCR0),
    {
        self.xcr0 = xcr0;
        self.set_valid(OFF_XCR0);
    }

    /// Writes the address of the x87 state and marks it valid.
    pub fn set_sw_x87_state_gpa(&mut self, x87_state_gpa: u64)
        ensures
            final(self)@ == (GHCBView { x87_state_gpa, ..old(self)@ }).with_valid(
                OFF_X87_STATE_GPA,
            ),
    {
        self.x87_state_gpa = x87_state_gpa;
        self.set_valid(OFF_X87_STATE_GPA);
    }

    /// Writes the request to read `port` into this GHCB, which is at `paddr`,
    /// and says how to hand it over. [`GHCB::ioio_in_result`] tells what has
    /// been read.
    pub fn ioio_in(&mut self, port: u16, size: GHCBIOSize, paddr: PhysAddr) -> (sequence:
        CallSequence)
        ensures
            final(self)@ == old(self)@.read_request(port, size),
            sequence@ == Progress::start(exit_calls(paddr)),
    {
        self.clear();

        let mut info: u64 = 1;  // IN instruction

        info |= (port as u64) << 16;

        match size {
            GHCBIOSize::Size8 => info |= 1 << 4,
            GHCBIOSize::Size16 => info |= 1 << 5,
            GHCBIOSize::Size32 => info |= 1 << 6,
        }
        proof {
            lemma_io_info_bits(port);
        }

        self.vmgexit(GHCBExitCode::IOIO, info, 0, paddr)
    }

    /// What a request to read a port has come to, as the GHCB says after the
    /// exit: the value, or an error if the hypervisor refuses or gives none.
    pub fn ioio_in_result(&self) -> (result: Result<u64, ()>)
        ensures
            result == self@.io_result(),
    {
        match self.exit_result() {
            Ok(()) => {
                if self.is_valid(OFF_RAX) {
                    Ok(self.rax)
                } else {
                    Err(())
                }
            },
            Err(()) => Err(()),
        }
    }

    /// Writes the request to write `value` to `port` into this GHCB, which is
    /// at `paddr`, and says how to hand it over. [`GHCB::ioio_out_result`]
    /// tells what has come of it.
    pub fn ioio_out(&mut self, port: u16, size: GHCBIOSize, value: u64, paddr: PhysAddr) -> (
        sequence: CallSequence)
        ensures
            final(self)@ == old(self)@.write_request(port, size, value),
            sequence@ == Progress::start(exit_calls(paddr)),
    {
        self.clear();

        let mut info: u64 = 0;  // OUT instruction

        info |= (port as u64) << 16;

        match size {
            GHCBIOSize::Size8 => info |= 1 << 4,
            GHCBIOSize::Size16 => info |= 1 << 5,
            GHCBIOSize::Size32 => info |= 1 << 6,
        }
        proof {
            lemma_io_info_bits(port);
        }

        self.set_rax(value);

        self.vmgexit(GHCBExitCode::IOIO, info, 0, paddr)
    }

    /// What a request to write a port has come to, as the GHCB says after the
    /// exit.
    pub fn ioio_out_result(&self) -> (result: Result<(), ()>)
        ensures
            result is Ok <==> self@.succeeded(),
    {
        match self.exit_result() {
            Ok(()) => Ok(()),
            Err(()) => Err(()),
        }
    }
}

/// The bits of the first argument of a port access, put together, are the
/// number that [`io_info`] says.
proof fn lemma_io_info_bits(port: u16)
    ensures
        1u64 | ((port as u64) << 16) | (1u64 << 4) == io_info(true, port, GHCBIOSize::Size8),
        1u64 | ((port as u64) << 16) | (1u64 << 5) == io_info(true, port, GHCBIOSize::Size16),
        1u64 | ((port as u64) << 16) | (1u64 << 6) == io_info(true, port, GHCBIOSize::Size32),
        0u64 | ((port as u64) << 16) | (1u64 << 4) == io_info(false, port, GHCBIOSize::Size8),
        0u64 | ((port as u64) << 16) | (1u64 << 5) == io_info(false, port, GHCBIOSize::Size16),
        0u64 | ((port as u64) << 16) | (1u64 << 6) == io_info(false, port, GHCBIOSize::Size32),
{
    let p = port as u64;
    assert(1u64 | (p << 16) | (1u64 << 4) == p * 0x10000 + 0x11 && 1u64 | (p << 16) | (1u64 << 5)
        == p * 0x10000 + 0x21 && 1u64 | (p << 16) | (1u64 << 6) == p * 0x10000 + 0x41 && 0u64 | (p
        << 16) | (1u64 << 4) == p * 0x10000 + 0x10 && 0u64 | (p << 16) | (1u64 << 5) == p * 0x10000
        + 0x20 && 0u64 | (p << 16) | (1u64 << 6) == p * 0x10000 + 0x40) by (bit_vector)
        requires
            p < 0x10000,
    ;
}

} // verus!
