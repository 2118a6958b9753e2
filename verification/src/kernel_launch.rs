//! What the kernel is told when it is launched.

use vstd::prelude::*;

use crate::bytes;

verus! {

/// Where the kernel and the pages handed to it are.
///
/// In memory the fields follow one another in this order, eight bytes each.
#[derive(Copy, Clone)]
pub struct KernelLaunchInfo {
    /// Start of the kernel in physical memory.
    pub kernel_start: u64,
    /// Exclusive end of the kernel in physical memory.
    pub kernel_end: u64,
    pub virt_base: u64,
    pub cpuid_page: u64,
    pub secrets_page: u64,
    pub ghcb: u64,
}

/// Size of a [`KernelLaunchInfo`] in memory.
pub const LAUNCH_INFO_SIZE: usize = 48;

impl KernelLaunchInfo {
    /// The bytes of this in memory.
    pub open spec fn image(self) -> Seq<u8> {
        bytes::le_bytes(self.kernel_start as nat, 8) + bytes::le_bytes(self.kernel_end as nat, 8)
            + bytes::le_bytes(self.virt_base as nat, 8) + bytes::le_bytes(
            self.cpuid_page as nat,
            8,
        ) + bytes::le_bytes(self.secrets_page as nat, 8) + bytes::le_bytes(self.ghcb as nat, 8)
    }

    /// What these bytes of memory hold.
    pub open spec fn of_image(image: Seq<u8>) -> KernelLaunchInfo {
        KernelLaunchInfo {
            kernel_start: bytes::le_value(image.subrange(0, 8)) as u64,
            kernel_end: bytes::le_value(image.subrange(8, 16)) as u64,
            virt_base: bytes::le_value(image.subrange(16, 24)) as u64,
            cpuid_page: bytes::le_value(image.subrange(24, 32)) as u64,
            secrets_page: bytes::le_value(image.subrange(32, 40)) as u64,
            ghcb: bytes::le_value(image.subrange(40, 48)) as u64,
        }
    }

    /// The bytes of this in memory.
    pub fn to_bytes(&self) -> (image: [u8; LAUNCH_INFO_SIZE])
        ensures
            image@ == self.image(),
    {
        let mut image = [0u8; LAUNCH_INFO_SIZE];
        assert(image@.take(0) =~= Seq::empty());
        bytes::write_le(&mut image, 0, self.kernel_start, 8);
        bytes::write_le(&mut image, 8, self.kernel_end, 8);
        bytes::write_le(&mut image, 16, self.virt_base, 8);
        bytes::write_le(&mut image, 24, self.cpuid_page, 8);
        bytes::write_le(&mut image, 32, self.secrets_page, 8);
        bytes::write_le(&mut image, 40, self.ghcb, 8);
        proof {
            assert(image@.take(48) =~= image@);
            assert(image@ =~= self.image());
        }
        image
    }

    /// What these bytes of memory hold.
    pub fn from_bytes(image: &[u8; LAUNCH_INFO_SIZE]) -> (info: KernelLaunchInfo)
        ensures
            info == KernelLaunchInfo::of_image(image@),
    {
        KernelLaunchInfo {
            kernel_start: bytes::read_le(image, 0, 8),
            kernel_end: bytes::read_le(image, 8, 8),
            virt_base: bytes::read_le(image, 16, 8),
            cpuid_page: bytes::read_le(image, 24, 8),
            secrets_page: bytes::read_le(image, 32, 8),
            ghcb: bytes::read_le(image, 40, 8),
        }
    }
}

/// The fields stand in memory one behind the other, in their order.
pub proof fn law_launch_info_fields_stand_in_order(info: KernelLaunchInfo)
    ensures
        info.image().len() == LAUNCH_INFO_SIZE,
        info.image().subrange(0, 8) == bytes::le_bytes(info.kernel_start as nat, 8),
        info.image().subrange(8, 16) == bytes::le_bytes(info.kernel_end as nat, 8),
        info.image().subrange(16, 24) == bytes::le_bytes(info.virt_base as nat, 8),
        info.image().subrange(24, 32) == bytes::le_bytes(info.cpuid_page as nat, 8),
        info.image().subrange(32, 40) == bytes::le_bytes(info.secrets_page as nat, 8),
        info.image().subrange(40, 48) == bytes::le_bytes(info.ghcb as nat, 8),
{
    bytes::lemma_le_bytes_len(info.kernel_start as nat, 8);
    bytes::lemma_le_bytes_len(info.kernel_end as nat, 8);
    bytes::lemma_le_bytes_len(info.virt_base as nat, 8);
    bytes::lemma_le_bytes_len(info.cpuid_page as nat, 8);
    bytes::lemma_le_bytes_len(info.secrets_page as nat, 8);
    bytes::lemma_le_bytes_len(info.ghcb as nat, 8);
}

/// What is written to memory is read from it.
pub proof fn law_launch_info_is_read_back(info: KernelLaunchInfo)
    ensures
        KernelLaunchInfo::of_image(info.image()) == info,
{
    law_launch_info_fields_stand_in_order(info);
    bytes::lemma_pow256_values();
    bytes::lemma_value_of_le_bytes(info.kernel_start as nat, 8);
    bytes::lemma_value_of_le_bytes(info.kernel_end as nat, 8);
    bytes::lemma_value_of_le_bytes(info.virt_base as nat, 8);
    bytes::lemma_value_of_le_bytes(info.cpuid_page as nat, 8);
    bytes::lemma_value_of_le_bytes(info.secrets_page as nat, 8);
    bytes::lemma_value_of_le_bytes(info.ghcb as nat, 8);
}

/// Memory is determined by what it holds: read and written again it is the
/// same.
pub proof fn law_launch_info_image_is_kept(image: Seq<u8>)
    requires
        image.len() == LAUNCH_INFO_SIZE,
    ensures
        KernelLaunchInfo::of_image(image).image() == image,
{
    bytes::lemma_number_is_kept(image.subrange(0, 8));
    bytes::lemma_number_is_kept(image.subrange(8, 16));
    bytes::lemma_number_is_kept(image.subrange(16, 24));
    bytes::lemma_number_is_kept(image.subrange(24, 32));
    bytes::lemma_number_is_kept(image.subrange(32, 40));
    bytes::lemma_number_is_kept(image.subrange(40, 48));
    assert(image.subrange(0, 8) + image.subrange(8, 16) + image.subrange(16, 24) + image.subrange(
        24,
        32,
    ) + image.subrange(32, 40) + image.subrange(40, 48) =~= image);
}

} // verus!
