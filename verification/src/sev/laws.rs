//! What holds of the GHCB as a whole.

use vstd::prelude::*;

use crate::bytes;
use crate::sev::bitmap;
use crate::sev::ghcb;
use crate::sev::ghcb::{GHCBIOSize, GHCBView, GHCB};
use crate::sev::layout;
use crate::sev::layout::{GHCBField, OFF_VALID_BITMAP};
use crate::types::PAGE_SIZE;

verus! {

/// Every field stands in the page where the layout says.
pub proof fn law_fields_stand_in_the_page(v: GHCBView, field: GHCBField)
    requires
        v.well_formed(),
    ensures
        v.page().len() == PAGE_SIZE,
        field.of_page(v.page()) == v.parts()[field.index()],
{
    layout::lemma_field_starts();
    ghcb::lemma_parts_fit(v);
    layout::lemma_part_of_concat(v.parts(), field.index());
}

/// What is written to a page is read from it.
pub proof fn law_page_gives_back_what_it_holds(v: GHCBView)
    requires
        v.well_formed(),
    ensures
        GHCBView::of_page(v.page()) == v,
{
    assert forall|field: GHCBField| #[trigger] field.of_page(v.page()) == v.parts()[field.index()]
        by {
        law_fields_stand_in_the_page(v, field);
    }
    bytes::lemma_pow256_values();
    bytes::lemma_value_of_le_bytes(v.cpl as nat, 1);
    bytes::lemma_value_of_le_bytes(v.xss as nat, 8);
    bytes::lemma_value_of_le_bytes(v.dr7 as nat, 8);
    bytes::lemma_value_of_le_bytes(v.rax as nat, 8);
    bytes::lemma_value_of_le_bytes(v.reserved_6 as nat, 8);
    bytes::lemma_value_of_le_bytes(v.rcx as nat, 8);
    bytes::lemma_value_of_le_bytes(v.rdx as nat, 8);
    bytes::lemma_value_of_le_bytes(v.rbx as nat, 8);
    bytes::lemma_value_of_le_bytes(v.sw_exit_code as nat, 8);
    bytes::lemma_value_of_le_bytes(v.sw_exit_info_1 as nat, 8);
    bytes::lemma_value_of_le_bytes(v.sw_exit_info_2 as nat, 8);
    bytes::lemma_value_of_le_bytes(v.sw_scratch as nat, 8);
    bytes::lemma_value_of_le_bytes(v.xcr0 as nat, 8);
    bytes::lemma_value_of_le_bytes(v.x87_state_gpa as nat, 8);
    bytes::lemma_value_of_le_bytes(v.version as nat, 2);
    bytes::lemma_value_of_le_bytes(v.usage as nat, 4);
    bitmap::lemma_marked_in_bitmap_bytes(v.valid);
}

/// The bytes of a number of `n` bytes, read and written again.
proof fn lemma_number_part(page: Seq<u8>, field: GHCBField)
    requires
        page.len() == PAGE_SIZE,
    ensures
        field.of_page(page).len() == field.spec_size(),
        bytes::le_bytes(bytes::le_value(field.of_page(page)), field.spec_size()) == field.of_page(
            page,
        ),
        bytes::le_value(field.of_page(page)) < bytes::pow256(field.spec_size()),
{
    layout::lemma_field_starts();
    bytes::lemma_le_bytes_of_value(field.of_page(page));
    bytes::lemma_le_value_bound(field.of_page(page));
}

/// A page is determined by what it holds, reserved fields included: read and
/// written again it is the same page.
pub proof fn law_page_is_what_it_holds(page: Seq<u8>)
    requires
        page.len() == PAGE_SIZE,
    ensures
        GHCBView::of_page(page).well_formed(),
        GHCBView::of_page(page).page() == page,
{
    let v = GHCBView::of_page(page);
    let parts = v.parts();
    layout::lemma_field_starts();
    bytes::lemma_pow256_values();
    lemma_number_part(page, GHCBField::Cpl);
    lemma_number_part(page, GHCBField::Xss);
    lemma_number_part(page, GHCBField::Dr7);
    lemma_number_part(page, GHCBField::Rax);
    lemma_number_part(page, GHCBField::Reserved6);
    lemma_number_part(page, GHCBField::Rcx);
    lemma_number_part(page, GHCBField::Rdx);
    lemma_number_part(page, GHCBField::Rbx);
    lemma_number_part(page, GHCBField::SwExitCode);
    lemma_number_part(page, GHCBField::SwExitInfo1);
    lemma_number_part(page, GHCBField::SwExitInfo2);
    lemma_number_part(page, GHCBField::SwScratch);
    lemma_number_part(page, GHCBField::Xcr0);
    lemma_number_part(page, GHCBField::X87StateGpa);
    lemma_number_part(page, GHCBField::Version);
    lemma_number_part(page, GHCBField::Usage);
    bitmap::lemma_bitmap_bytes_of_marked(GHCBField::ValidBitmap.of_page(page));
    assert forall|k: int| 0 <= k < parts.len() implies #[trigger] parts[k] == page.subrange(
        layout::field_start(k) as int,
        layout::field_start(k + 1) as int,
    ) by {
        assert(layout::field_start(k + 1) == layout::field_start(k) + layout::field_sizes()[k]);
    }
    layout::lemma_concat_of_page(parts, page);
    assert(page.take(PAGE_SIZE as int) =~= page);
}

/// To write a field changes the validity of its own slot and of no other.
/// Within the area that the bitmap covers, each eight bytes are a slot.
pub proof fn law_write_marks_one_slot(v: GHCBView, written: u16, other: u16)
    ensures
        v.with_valid(written).has_valid(written),
        v.with_valid(written).has_valid(other) <==> v.has_valid(other) || bitmap::slot_of(written)
            == bitmap::slot_of(other),
        written < 0x400 && other < 0x400 ==> (v.with_valid(written).has_valid(other)
            <==> v.has_valid(other) || written / 8 == other / 8),
{
    if written < 0x400 && other < 0x400 {
        bitmap::law_slots_are_distinct(written, other);
    }
}

/// Each named field has a bit of its own, but for two pairs: version and usage
/// share one, and so do the address of the x87 state and the buffer.
pub proof fn law_named_fields_have_their_own_bits(a: GHCBField, b: GHCBField)
    requires
        a.index() < b.index(),
        a.declared_offset() is Some,
        b.declared_offset() is Some,
        !(a is Version && b is Usage),
        !(a is X87StateGpa && b is Buffer),
    ensures
        bitmap::slot_of(a.declared_offset().unwrap()) != bitmap::slot_of(
            b.declared_offset().unwrap(),
        ),
{
}

/// After a clear only the valid bitmap is valid, whatever was before.
pub proof fn law_clear_leaves_only_the_bitmap(v: GHCBView, offset: u16)
    requires
        offset < 0x400,
    ensures
        v.cleared().has_valid(offset) <==> OFF_VALID_BITMAP <= offset,
        v.cleared().cleared() == v.cleared(),
{
    bitmap::law_slots_are_distinct(OFF_VALID_BITMAP, offset);
    bitmap::law_slots_are_distinct((OFF_VALID_BITMAP + 8) as u16, offset);
}

/// A port access is told in full by the first argument of its exit: two
/// accesses with the same argument go the same way, to the same port, in the
/// same size. The argument fits in 32 bits.
pub proof fn law_io_info_tells_the_access(
    input1: bool,
    port1: u16,
    size1: GHCBIOSize,
    input2: bool,
    port2: u16,
    size2: GHCBIOSize,
)
    ensures
        0 < ghcb::io_info(input1, port1, size1) < 0x1_0000_0000,
        ghcb::io_info(input1, port1, size1) == ghcb::io_info(input2, port2, size2) ==> input1
            == input2 && port1 == port2 && size1 == size2,
{
}

/// A request to read a port hands the hypervisor the exit code, its two
/// arguments, the bitmap and the last slot, whatever was in the GHCB before.
/// It leaves `rax` to the hypervisor.
pub proof fn law_read_request_marks(v: GHCBView, port: u16, size: GHCBIOSize, offset: u16)
    requires
        offset < 0x400,
    ensures
        v.read_request(port, size).has_valid(offset) <==> 0x390 <= offset < 0x3a8 || 0x3f0
            <= offset,
{
}

/// A request to write a port hands over what one to read hands over, and
/// `rax`.
pub proof fn law_write_request_marks(
    v: GHCBView,
    port: u16,
    size: GHCBIOSize,
    value: u64,
    offset: u16,
)
    requires
        offset < 0x400,
    ensures
        v.write_request(port, size, value).has_valid(offset) <==> 0x1f8 <= offset < 0x200 || 0x390
            <= offset < 0x3a8 || 0x3f0 <= offset,
        v.write_request(port, size, value).rax == value,
{
}

/// A request that the hypervisor has not answered has failed: as long as the
/// first argument stands as the guest wrote it, a read gives no value and a
/// write has not succeeded.
pub proof fn law_unanswered_request_fails(
    v: GHCBView,
    port: u16,
    size: GHCBIOSize,
    value: u64,
    after: GHCBView,
)
    ensures
        after.sw_exit_info_1 == v.read_request(port, size).sw_exit_info_1 ==> after.io_result()
            is Err && !after.succeeded(),
        after.sw_exit_info_1 == v.write_request(port, size, value).sw_exit_info_1
            ==> !after.succeeded(),
{
}

/// A read that the hypervisor accepts without a value has failed: the guest
/// never takes the `rax` of an earlier request for the answer.
pub proof fn law_read_without_a_value_fails(
    v: GHCBView,
    port: u16,
    size: GHCBIOSize,
    after: GHCBView,
)
    requires
        after.valid == v.read_request(port, size).valid,
    ensures
        after.io_result() is Err,
{
}

/// A read gives the value that the hypervisor has put into `rax`, if it also
/// reports success; a write has succeeded if it reports success.
pub proof fn law_answered_request_succeeds(
    v: GHCBView,
    port: u16,
    size: GHCBIOSize,
    value: u64,
    answer: u64,
)
    ensures
        (GHCBView { sw_exit_info_1: 0, ..v.read_request(port, size) }).with_rax(answer).io_result()
            == Ok::<u64, ()>(answer),
        (GHCBView { sw_exit_info_1: 0, ..v.write_request(port, size, value) }).succeeded(),
{
}

/// Where a GHCB puts each of its fields in its page.
pub proof fn law_bytes_of_the_page(ghcb: &GHCB)
    ensures
        ghcb@.page().len() == 0x1000,
        ghcb@.page().subrange(0x0, 0xcb) == ghcb@.reserved_1,
        ghcb@.page().subrange(0xcb, 0xcc) == bytes::le_bytes(ghcb@.cpl as nat, 1),
        ghcb@.page().subrange(0xcc, 0x140) == ghcb@.reserved_2,
        ghcb@.page().subrange(0x140, 0x148) == bytes::le_bytes(ghcb@.xss as nat, 8),
        ghcb@.page().subrange(0x148, 0x160) == ghcb@.reserved_3,
        ghcb@.page().subrange(0x160, 0x168) == bytes::le_bytes(ghcb@.dr7 as nat, 8),
        ghcb@.page().subrange(0x168, 0x1f8) == ghcb@.reserved_4,
        ghcb@.page().subrange(0x1f8, 0x200) == bytes::le_bytes(ghcb@.rax as nat, 8),
        ghcb@.page().subrange(0x200, 0x300) == ghcb@.reserved_5,
        ghcb@.page().subrange(0x300, 0x308) == bytes::le_bytes(ghcb@.reserved_6 as nat, 8),
        ghcb@.page().subrange(0x308, 0x310) == bytes::le_bytes(ghcb@.rcx as nat, 8),
        ghcb@.page().subrange(0x310, 0x318) == bytes::le_bytes(ghcb@.rdx as nat, 8),
        ghcb@.page().subrange(0x318, 0x320) == bytes::le_bytes(ghcb@.rbx as nat, 8),
        ghcb@.page().subrange(0x320, 0x390) == ghcb@.reserved_7,
        ghcb@.page().subrange(0x390, 0x398) == bytes::le_bytes(ghcb@.sw_exit_code as nat, 8),
        ghcb@.page().subrange(0x398, 0x3a0) == bytes::le_bytes(ghcb@.sw_exit_info_1 as nat, 8),
        ghcb@.page().subrange(0x3a0, 0x3a8) == bytes::le_bytes(ghcb@.sw_exit_info_2 as nat, 8),
        ghcb@.page().subrange(0x3a8, 0x3b0) == bytes::le_bytes(ghcb@.sw_scratch as nat, 8),
        ghcb@.page().subrange(0x3b0, 0x3e8) == ghcb@.reserved_8,
        ghcb@.page().subrange(0x3e8, 0x3f0) == bytes::le_bytes(ghcb@.xcr0 as nat, 8),
        forall|s: int|
            0 <= s < 128 ==> ((#[trigger] (ghcb@.page()[0x3f0 + s / 8] >> ((s % 8) as u8))) & 1 == 1
                <==> ghcb@.valid.contains(s)),
        ghcb@.page().subrange(0x400, 0x408) == bytes::le_bytes(ghcb@.x87_state_gpa as nat, 8),
        ghcb@.page().subrange(0x408, 0x800) == ghcb@.reserved_9,
        ghcb@.page().subrange(0x800, 0xff0) == ghcb@.buffer,
        ghcb@.page().subrange(0xff0, 0xffa) == ghcb@.reserved_10,
        ghcb@.page().subrange(0xffa, 0xffc) == bytes::le_bytes(ghcb@.version as nat, 2),
        ghcb@.page().subrange(0xffc, 0x1000) == bytes::le_bytes(ghcb@.usage as nat, 4),
{
    ghcb::law_ghcb_is_well_formed(ghcb);
    layout::lemma_field_starts();
    law_fields_stand_in_the_page(ghcb@, GHCBField::Reserved1);
    law_fields_stand_in_the_page(ghcb@, GHCBField::Cpl);
    law_fields_stand_in_the_page(ghcb@, GHCBField::Reserved2);
    law_fields_stand_in_the_page(ghcb@, GHCBField::Xss);
    law_fields_stand_in_the_page(ghcb@, GHCBField::Reserved3);
    law_fields_stand_in_the_page(ghcb@, GHCBField::Dr7);
    law_fields_stand_in_the_page(ghcb@, GHCBField::Reserved4);
    law_fields_stand_in_the_page(ghcb@, GHCBField::Rax);
    law_fields_stand_in_the_page(ghcb@, GHCBField::Reserved5);
    law_fields_stand_in_the_page(ghcb@, GHCBField::Reserved6);
    law_fields_stand_in_the_page(ghcb@, GHCBField::Rcx);
    law_fields_stand_in_the_page(ghcb@, GHCBField::Rdx);
    law_fields_stand_in_the_page(ghcb@, GHCBField::Rbx);
    law_fields_stand_in_the_page(ghcb@, GHCBField::Reserved7);
    law_fields_stand_in_the_page(ghcb@, GHCBField::SwExitCode);
    law_fields_stand_in_the_page(ghcb@, GHCBField::SwExitInfo1);
    law_fields_stand_in_the_page(ghcb@, GHCBField::SwExitInfo2);
    law_fields_stand_in_the_page(ghcb@, GHCBField::SwScratch);
    law_fields_stand_in_the_page(ghcb@, GHCBField::Reserved8);
    law_fields_stand_in_the_page(ghcb@, GHCBField::Xcr0);
    law_fields_stand_in_the_page(ghcb@, GHCBField::ValidBitmap);
    law_fields_stand_in_the_page(ghcb@, GHCBField::X87StateGpa);
    law_fields_stand_in_the_page(ghcb@, GHCBField::Reserved9);
    law_fields_stand_in_the_page(ghcb@, GHCBField::Buffer);
    law_fields_stand_in_the_page(ghcb@, GHCBField::Reserved10);
    law_fields_stand_in_the_page(ghcb@, GHCBField::Version);
    law_fields_stand_in_the_page(ghcb@, GHCBField::Usage);
    assert forall|s: int| 0 <= s < 128 implies ((#[trigger] (ghcb@.page()[0x3f0 + s / 8] >> ((s
        % 8) as u8))) & 1 == 1 <==> ghcb@.valid.contains(s)) by {
        let part = GHCBField::ValidBitmap.of_page(ghcb@.page());
        assert(part[s / 8] == ghcb@.page()[0x3f0 + s / 8]);
        bitmap::law_bit_stands_for_its_slot(ghcb@.valid, part, s);
    }
}

/// What a GHCB takes each of its fields to be from a page.
pub proof fn law_fields_of_a_page(page: Seq<u8>)
    requires
        page.len() == 0x1000,
    ensures
        GHCBView::of_page(page).reserved_1 == page.subrange(0x0, 0xcb),
        GHCBView::of_page(page).cpl == bytes::le_value(page.subrange(0xcb, 0xcc)),
        GHCBView::of_page(page).reserved_2 == page.subrange(0xcc, 0x140),
        GHCBView::of_page(page).xss == bytes::le_value(page.subrange(0x140, 0x148)),
        GHCBView::of_page(page).reserved_3 == page.subrange(0x148, 0x160),
        GHCBView::of_page(page).dr7 == bytes::le_value(page.subrange(0x160, 0x168)),
        GHCBView::of_page(page).reserved_4 == page.subrange(0x168, 0x1f8),
        GHCBView::of_page(page).rax == bytes::le_value(page.subrange(0x1f8, 0x200)),
        GHCBView::of_page(page).reserved_5 == page.subrange(0x200, 0x300),
        GHCBView::of_page(page).reserved_6 == bytes::le_value(page.subrange(0x300, 0x308)),
        GHCBView::of_page(page).rcx == bytes::le_value(page.subrange(0x308, 0x310)),
        GHCBView::of_page(page).rdx == bytes::le_value(page.subrange(0x310, 0x318)),
        GHCBView::of_page(page).rbx == bytes::le_value(page.subrange(0x318, 0x320)),
        GHCBView::of_page(page).reserved_7 == page.subrange(0x320, 0x390),
        GHCBView::of_page(page).sw_exit_code == bytes::le_value(page.subrange(0x390, 0x398)),
        GHCBView::of_page(page).sw_exit_info_1 == bytes::le_value(page.subrange(0x398, 0x3a0)),
        GHCBView::of_page(page).sw_exit_info_2 == bytes::le_value(page.subrange(0x3a0, 0x3a8)),
        GHCBView::of_page(page).sw_scratch == bytes::le_value(page.subrange(0x3a8, 0x3b0)),
        GHCBView::of_page(page).reserved_8 == page.subrange(0x3b0, 0x3e8),
        GHCBView::of_page(page).xcr0 == bytes::le_value(page.subrange(0x3e8, 0x3f0)),
        forall|s: int|
            #[trigger] GHCBView::of_page(page).valid.contains(s) <==> 0 <= s < 128 && (page[0x3f0 + s
                / 8] >> ((s % 8) as u8)) & 1 == 1,
        GHCBView::of_page(page).x87_state_gpa == bytes::le_value(page.subrange(0x400, 0x408)),
        GHCBView::of_page(page).reserved_9 == page.subrange(0x408, 0x800),
        GHCBView::of_page(page).buffer == page.subrange(0x800, 0xff0),
        GHCBView::of_page(page).reserved_10 == page.subrange(0xff0, 0xffa),
        GHCBView::of_page(page).version == bytes::le_value(page.subrange(0xffa, 0xffc)),
        GHCBView::of_page(page).usage == bytes::le_value(page.subrange(0xffc, 0x1000)),
{
    layout::lemma_field_starts();
    bytes::lemma_pow256_values();
    lemma_number_part(page, GHCBField::Cpl);
    lemma_number_part(page, GHCBField::Xss);
    lemma_number_part(page, GHCBField::Dr7);
    lemma_number_part(page, GHCBField::Rax);
    lemma_number_part(page, GHCBField::Reserved6);
    lemma_number_part(page, GHCBField::Rcx);
    lemma_number_part(page, GHCBField::Rdx);
    lemma_number_part(page, GHCBField::Rbx);
    lemma_number_part(page, GHCBField::SwExitCode);
    lemma_number_part(page, GHCBField::SwExitInfo1);
    lemma_number_part(page, GHCBField::SwExitInfo2);
    lemma_number_part(page, GHCBField::SwScratch);
    lemma_number_part(page, GHCBField::Xcr0);
    lemma_number_part(page, GHCBField::X87StateGpa);
    lemma_number_part(page, GHCBField::Version);
    lemma_number_part(page, GHCBField::Usage);
    assert forall|s: int| #[trigger]
        GHCBView::of_page(page).valid.contains(s) <==> 0 <= s < 128 && (page[0x3f0 + s / 8] >> ((s
            % 8) as u8)) & 1 == 1 by {
        let part = GHCBField::ValidBitmap.of_page(page);
        if 0 <= s < 128 {
            assert(part[s / 8] == page[0x3f0 + s / 8]);
            bitmap::law_bit_stands_for_its_slot(Set::empty(), part, s);
        }
    }
}

} // verus!
