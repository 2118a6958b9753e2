//! Guest side of the AMD SEV-ES/SEV-SNP guest-hypervisor communication block
//! (GHCB): the shared page itself, the port I/O requests carried through it,
//! and the platform calls that bring it up and tear it down.

pub mod bytes;
pub mod kernel_launch;
pub mod sev;
pub mod types;
