//! What guest and hypervisor agree on: the numbers of a port access and of its
//! reply, for every port, size and value.

use vstd::prelude::*;

use crate::sev::ghcb;
use crate::sev::ghcb::{GHCBIOSize, GHCBView};

verus! {

/// A read asks for an IOIO exit with the very port and size of the access: the
/// port in bits 16 to 31 of the first argument, the number of bytes in bits 4
/// to 6, bit 0 set, and no other bit.
pub proof fn law_read_asks_for_the_access(v: GHCBView, port: u16, size: GHCBIOSize)
    ensures
        ({
            let asked = v.read_request(port, size);
            let info = asked.sw_exit_info_1;
            &&& asked.sw_exit_code == 0x7b
            &&& asked.sw_exit_info_2 == 0
            &&& asked.version == 2
            &&& asked.usage == 0
            &&& info / 0x1_0000 == port
            &&& info % 0x10 == 1
            &&& size is Size8 ==> info % 0x1_0000 / 0x10 == 1
            &&& size is Size16 ==> info % 0x1_0000 / 0x10 == 2
            &&& size is Size32 ==> info % 0x1_0000 / 0x10 == 4
        }),
{
}

/// A write asks for an IOIO exit with the very port and size of the access, as
/// a read does but with bit 0 clear, and hands over the value in `rax`.
pub proof fn law_write_asks_for_the_access(v: GHCBView, port: u16, size: GHCBIOSize, value: u64)
    ensures
        ({
            let asked = v.write_request(port, size, value);
            let info = asked.sw_exit_info_1;
            &&& asked.sw_exit_code == 0x7b
            &&& asked.sw_exit_info_2 == 0
            &&& asked.version == 2
            &&& asked.usage == 0
            &&& asked.rax == value
            &&& info / 0x1_0000 == port
            &&& info % 0x10 == 0
            &&& size is Size8 ==> info % 0x1_0000 / 0x10 == 1
            &&& size is Size16 ==> info % 0x1_0000 / 0x10 == 2
            &&& size is Size32 ==> info % 0x1_0000 / 0x10 == 4
        }),
{
}

/// A read and a write of the same port in the same size ask for the same exit
/// and differ in bit 0 of the first argument; two ports that are `n` apart make
/// arguments that are `n` times 0x10000 apart.
pub proof fn law_accesses_compare(
    v: GHCBView,
    w: GHCBView,
    port: u16,
    other: u16,
    size: GHCBIOSize,
    value: u64,
)
    ensures
        v.read_request(port, size).sw_exit_code == w.write_request(other, size, value).sw_exit_code,
        v.read_request(port, size).sw_exit_info_1 == w.write_request(
            port,
            size,
            value,
        ).sw_exit_info_1 + 1,
        v.read_request(port, size).sw_exit_info_1 - w.read_request(other, size).sw_exit_info_1 == (
        port - other) * 0x1_0000,
        v.write_request(port, size, value).sw_exit_info_1 - w.write_request(
            other,
            size,
            value,
        ).sw_exit_info_1 == (port - other) * 0x1_0000,
{
}

/// The first argument of an access, and the part of it that tells the size.
pub proof fn law_numbers_of_an_access(input: bool, port: u16, size: GHCBIOSize)
    ensures
        ghcb::io_info(input, port, size) / 0x1_0000 == port,
        ghcb::io_info(input, port, size) % 0x1_0000 == size.flag() + (if input {
            1int
        } else {
            0int
        }),
        size.flag() == (match size {
            GHCBIOSize::Size8 => 0x10int,
            GHCBIOSize::Size16 => 0x20int,
            GHCBIOSize::Size32 => 0x40int,
        }),
{
}

/// A read changes nothing else in the GHCB, and marks valid the exit code, its
/// arguments and the quadwords of the bitmap, the last of which also stands
/// for version and usage.
pub proof fn law_read_changes_nothing_else(v: GHCBView, port: u16, size: GHCBIOSize)
    ensures
        ({
            let asked = v.read_request(port, size);
            &&& asked == GHCBView {
                version: asked.version,
                usage: asked.usage,
                sw_exit_code: asked.sw_exit_code,
                sw_exit_info_1: asked.sw_exit_info_1,
                sw_exit_info_2: asked.sw_exit_info_2,
                valid: asked.valid,
                ..v
            }
            &&& asked.valid == set![114int, 115int, 116int, 126int, 127int]
        }),
{
    assert(v.read_request(port, size).valid =~= set![114int, 115int, 116int, 126int, 127int]);
}

/// A write changes nothing else in the GHCB either, and marks `rax` valid too.
pub proof fn law_write_changes_nothing_else(v: GHCBView, port: u16, size: GHCBIOSize, value: u64)
    ensures
        ({
            let asked = v.write_request(port, size, value);
            &&& asked == GHCBView {
                version: asked.version,
                usage: asked.usage,
                sw_exit_code: asked.sw_exit_code,
                sw_exit_info_1: asked.sw_exit_info_1,
                sw_exit_info_2: asked.sw_exit_info_2,
                rax: asked.rax,
                valid: asked.valid,
                ..v
            }
            &&& asked.valid == set![63int, 114int, 115int, 116int, 126int, 127int]
        }),
{
    assert(v.write_request(port, size, value).valid =~= set![
        63int,
        114int,
        115int,
        116int,
        126int,
        127int,
    ]);
}

/// To mark a field valid changes nothing but the bit of its quadword.
pub proof fn law_mark_changes_one_bit(v: GHCBView, offset: u16, s: int)
    ensures
        v.with_valid(offset) == (GHCBView { valid: v.with_valid(offset).valid, ..v }),
        v.with_valid(offset).valid.contains(s) <==> v.valid.contains(s) || s == (offset / 8) % 128,
        v.has_valid(offset) <==> v.valid.contains(((offset / 8) % 128) as int),
{
}

/// To write `rax` changes `rax` and its bit, and nothing else.
pub proof fn law_rax_changes_one_bit(v: GHCBView, rax: u64, s: int)
    ensures
        v.with_rax(rax) == (GHCBView { rax, valid: v.with_rax(rax).valid, ..v }),
        v.with_rax(rax).valid.contains(s) <==> v.valid.contains(s) || s == 63,
{
}

/// A clear changes nothing but the bitmap, and leaves the bits of the bitmap's
/// own two quadwords.
pub proof fn law_clear_changes_the_bitmap_only(v: GHCBView)
    ensures
        v.cleared() == (GHCBView { valid: set![126int, 127int], ..v }),
{
    assert(v.cleared().valid =~= set![126int, 127int]);
}

/// An exit writes the request that it is given, and nothing else.
pub proof fn law_exit_writes_the_request(v: GHCBView, code: u64, info_1: u64, info_2: u64, s: int)
    ensures
        v.with_exit(code, info_1, info_2) == (GHCBView {
            version: 2,
            usage: 0,
            sw_exit_code: code,
            sw_exit_info_1: info_1,
            sw_exit_info_2: info_2,
            valid: v.with_exit(code, info_1, info_2).valid,
            ..v
        }),
        v.with_exit(code, info_1, info_2).valid.contains(s) <==> v.valid.contains(s) || s == 114
            || s == 115 || s == 116 || s == 127,
{
}

/// A reply is a success if and only if its status is valid and zero. A read
/// then gives `rax` if that is valid too, and in every other case an error.
pub proof fn law_what_a_reply_means(v: GHCBView, value: u64)
    ensures
        v.succeeded() <==> v.valid.contains(115) && v.sw_exit_info_1 == 0,
        v.io_result() == Ok::<u64, ()>(value) <==> v.valid.contains(115) && v.sw_exit_info_1 == 0
            && v.valid.contains(63) && v.rax == value,
        v.io_result() is Err <==> !v.valid.contains(115) || v.sw_exit_info_1 != 0
            || !v.valid.contains(63),
{
}

} // verus!
