//! SEV support: the GHCB, port I/O through it, and its life cycle.

pub mod bitmap;
pub mod ghcb;
pub mod io_port;
pub mod laws;
pub mod layout;
pub mod lifecycle;
pub mod page_state;
pub mod platform;
pub mod protocol;

use vstd::prelude::*;

use crate::sev::platform::{CallSequence, PlatformCall, Progress};

pub use crate::sev::ghcb::{GHCBExitCode, GHCBIOSize, GHCB};
pub use crate::sev::io_port::GHCBIOPort;
pub use crate::sev::page_state::{PageStateChange, PageStateChangeOp};

verus! {

/// Finds out which SEV features are active.
pub fn sev_init() -> (sequence: CallSequence)
    ensures
        sequence@ == Progress::start(seq![PlatformCall::SevStatusInit]),
{
    let calls = [PlatformCall::SevStatusInit];
    assert(calls@ =~= seq![PlatformCall::SevStatusInit]);
    CallSequence::new(calls)
}

} // verus!
