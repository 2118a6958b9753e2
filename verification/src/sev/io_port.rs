//! Port I/O through the GHCB, by bytes and by words.
//!
//! Each access has two halves. The first writes the request and says how to
//! hand it to the hypervisor; the second, after the exit, reads the reply and
//! says whether the guest can go on.

use vstd::prelude::*;

use crate::sev::ghcb;
use crate::sev::ghcb::{GHCBIOSize, GHCBView, GHCB};
use crate::sev::platform::{CallSequence, PlatformCall, Progress};
use crate::types::PhysAddr;

verus! {

/// I/O ports that are reached through a GHCB.
pub struct GHCBIOPort<'a> {
    pub ghcb: &'a mut GHCB,
}

impl<'a> View for GHCBIOPort<'a> {
    type V = GHCBView;

    /// What the GHCB holds.
    open spec fn view(&self) -> GHCBView {
        (*self.ghcb)@
    }
}

/// The byte that a read gives, and what is left to do: the low byte of the
/// value and nothing, or 0 and to terminate the guest.
pub open spec fn byte_read(result: Result<u64, ()>) -> (u8, Option<PlatformCall>) {
    match result {
        Ok(v) => ((v % 0x100) as u8, None),
        Err(()) => (0, Some(PlatformCall::RequestTermination)),
    }
}

/// The word that a read gives, and what is left to do: the low word of the
/// value and nothing, or 0 and to terminate the guest.
pub open spec fn word_read(result: Result<u64, ()>) -> (u16, Option<PlatformCall>) {
    match result {
        Ok(v) => ((v % 0x1_0000) as u16, None),
        Err(()) => (0, Some(PlatformCall::RequestTermination)),
    }
}

impl<'a> GHCBIOPort<'a> {
    /// The ports that are reached through `ghcb`.
    pub fn new(ghcb: &'a mut GHCB) -> (port: Self)
        ensures
            *port.ghcb == *old(ghcb),
            *final(port.ghcb) == *final(ghcb),
    {
        GHCBIOPort { ghcb }
    }

    /// Asks for a byte to be written to `port`. The GHCB is at `paddr`.
    pub fn outb(&mut self, port: u16, value: u8, paddr: PhysAddr) -> (sequence: CallSequence)
        ensures
            final(self)@ == old(self)@.write_request(port, GHCBIOSize::Size8, value as u64),
            *final(final(self).ghcb) == *final(old(self).ghcb),
            sequence@ == Progress::start(ghcb::exit_calls(paddr)),
    {
        self.ghcb.ioio_out(port, GHCBIOSize::Size8, value as u64, paddr)
    }

    /// Asks for a word to be written to `port`. The GHCB is at `paddr`.
    pub fn outw(&mut self, port: u16, value: u16, paddr: PhysAddr) -> (sequence: CallSequence)
        ensures
            final(self)@ == old(self)@.write_request(port, GHCBIOSize::Size16, value as u64),
            *final(final(self).ghcb) == *final(old(self).ghcb),
            sequence@ == Progress::start(ghcb::exit_calls(paddr)),
    {
        self.ghcb.ioio_out(port, GHCBIOSize::Size16, value as u64, paddr)
    }

    /// What is left to do after [`GHCBIOPort::outb`] or [`GHCBIOPort::outw`]:
    /// nothing if the value was written, else to terminate the guest.
    pub fn out_result(&self) -> (call: Option<PlatformCall>)
        ensures
            call == (if self@.succeeded() {
                None
            } else {
                Some(PlatformCall::RequestTermination)
            }),
    {
        let ret = self.ghcb.ioio_out_result();
        if let Err(()) = ret {
            return Some(PlatformCall::RequestTermination);
        }
        None
    }

    /// Asks for a byte to be read from `port`. The GHCB is at `paddr`.
    pub fn inb(&mut self, port: u16, paddr: PhysAddr) -> (sequence: CallSequence)
        ensures
            final(self)@ == old(self)@.read_request(port, GHCBIOSize::Size8),
            *final(final(self).ghcb) == *final(old(self).ghcb),
            sequence@ == Progress::start(ghcb::exit_calls(paddr)),
    {
        self.ghcb.ioio_in(port, GHCBIOSize::Size8, paddr)
    }

    /// The byte that [`GHCBIOPort::inb`] asked for, and what is left to do. If
    /// none was read the byte is 0 and the guest is to be terminated.
    pub fn inb_result(&self) -> (result: (u8, Option<PlatformCall>))
        ensures
            result == byte_read(self@.io_result()),
    {
        let ret = self.ghcb.ioio_in_result();
        match ret {
            Ok(v) => {
                assert(v & 0xff == v % 0x100) by (bit_vector);
                ((v & 0xff) as u8, None)
            },
            Err(()) => (0, Some(PlatformCall::RequestTermination)),
        }
    }

    /// Asks for a word to be read from `port`. The GHCB is at `paddr`.
    pub fn inw(&mut self, port: u16, paddr: PhysAddr) -> (sequence: CallSequence)
        ensures
            final(self)@ == old(self)@.read_request(port, GHCBIOSize::Size16),
            *final(final(self).ghcb) == *final(old(self).ghcb),
            sequence@ == Progress::start(ghcb::exit_calls(paddr)),
    {
        self.ghcb.ioio_in(port, GHCBIOSize::Size16, paddr)
    }

    /// The word that [`GHCBIOPort::inw`] asked for, and what is left to do. If
    /// none was read the word is 0 and the guest is to be terminated.
    pub fn inw_result(&self) -> (result: (u16, Option<PlatformCall>))
        ensures
            result == word_read(self@.io_result()),
    {
        let ret = self.ghcb.ioio_in_result();
        match ret {
            Ok(v) => {
                assert(v & 0xffff == v % 0x1_0000) by (bit_vector);
                ((v & 0xffff) as u16, None)
            },
            Err(()) => (0, Some(PlatformCall::RequestTermination)),
        }
    }
}

/// What the guest writes to a port comes back unchanged from a hypervisor that
/// answers a read with it, in bytes and in words.
pub proof fn law_written_value_comes_back(
    v: GHCBView,
    port: u16,
    byte: u8,
    word: u16,
)
    ensures
        byte_read(Ok(v.write_request(port, GHCBIOSize::Size8, byte as u64).rax)) == (
            byte,
            None::<PlatformCall>,
        ),
        word_read(Ok(v.write_request(port, GHCBIOSize::Size16, word as u64).rax)) == (
            word,
            None::<PlatformCall>,
        ),
{
}

/// A read gives the low byte, or the low word, of the value and the guest goes
/// on; a read that has failed gives 0 and terminates the guest.
pub proof fn law_what_a_port_read_gives(value: u64)
    ensures
        byte_read(Ok(value)).0 == value % 0x100,
        byte_read(Ok(value)).1 is None,
        word_read(Ok(value)).0 == value % 0x1_0000,
        word_read(Ok(value)).1 is None,
        byte_read(Err(())) == (0u8, Some(PlatformCall::RequestTermination)),
        word_read(Err(())) == (0u16, Some(PlatformCall::RequestTermination)),
{
}

/// What a port shows is what its GHCB holds.
pub proof fn law_port_shows_its_ghcb<'a>(port: GHCBIOPort<'a>, held: GHCB)
    requires
        *port.ghcb == held,
    ensures
        port@ == held@,
{
}

} // verus!
