//! Where the fields of the GHCB stand in its page.
//!
//! The fields follow one another in the order of [`GHCBField`], with no gap
//! between them, and fill the page.

use vstd::prelude::*;

use crate::types::PAGE_SIZE;

verus! {

/// Offset of the privilege level.
pub const OFF_CPL: u16 = 0xcb;

/// Offset of the extended supervisor state mask.
pub const OFF_XSS: u16 = 0x140;

/// Offset of debug register 7.
pub const OFF_DR7: u16 = 0x160;

/// Offset of register rax.
pub const OFF_RAX: u16 = 0x1f8;

/// Offset of register rcx.
pub const OFF_RCX: u16 = 0x308;

/// Offset of register rdx.
pub const OFF_RDX: u16 = 0x310;

/// Offset of register rbx.
pub const OFF_RBX: u16 = 0x318;

/// Offset of the exit code.
pub const OFF_SW_EXIT_CODE: u16 = 0x390;

/// Offset of the first argument of the exit; on return, of the status.
pub const OFF_SW_EXIT_INFO_1: u16 = 0x398;

/// Offset of the second argument of the exit.
pub const OFF_SW_EXIT_INFO_2: u16 = 0x3a0;

/// Offset of the address of the scratch area.
pub const OFF_SW_SCRATCH: u16 = 0x3a8;

/// Offset of extended control register 0.
pub const OFF_XCR0: u16 = 0x3e8;

/// Offset of the valid bitmap.
pub const OFF_VALID_BITMAP: u16 = 0x3f0;

/// Offset of the address of the x87 state.
pub const OFF_X87_STATE_GPA: u16 = 0x400;

/// Offset of the shared buffer.
pub const OFF_BUFFER: u16 = 0x800;

/// Offset of the protocol version.
pub const OFF_VERSION: u16 = 0xffa;

/// Offset of the page format.
pub const OFF_USAGE: u16 = 0xffc;

/// The fields of the GHCB, in the order in which they stand in the page.
#[derive(Clone, Copy)]
pub enum GHCBField {
    Reserved1,
    Cpl,
    Reserved2,
    Xss,
    Reserved3,
    Dr7,
    Reserved4,
    Rax,
    Reserved5,
    Reserved6,
    Rcx,
    Rdx,
    Rbx,
    Reserved7,
    SwExitCode,
    SwExitInfo1,
    SwExitInfo2,
    SwScratch,
    Reserved8,
    Xcr0,
    ValidBitmap,
    X87StateGpa,
    Reserved9,
    Buffer,
    Reserved10,
    Version,
    Usage,
}

/// Number of fields of the GHCB.
pub const FIELD_COUNT: usize = 27;

/// The sizes of the fields in bytes, in the order in which they stand.
pub open spec fn field_sizes() -> Seq<nat> {
    seq![
        0xcbnat,
        0x1,
        0x74,
        0x8,
        0x18,
        0x8,
        0x90,
        0x8,
        0x100,
        0x8,
        0x8,
        0x8,
        0x8,
        0x70,
        0x8,
        0x8,
        0x8,
        0x8,
        0x38,
        0x8,
        0x10,
        0x8,
        0x3f8,
        0x7f0,
        0xa,
        0x2,
        0x4,
    ]
}

/// Where field number `k` begins: behind the `k` fields before it.
pub open spec fn field_start(k: int) -> nat
    decreases k,
{
    if k <= 0 {
        0
    } else {
        field_start(k - 1) + field_sizes()[k - 1]
    }
}

impl GHCBField {
    /// How many fields stand before this one.
    pub open spec fn index(self) -> int {
        match self {
            GHCBField::Reserved1 => 0,
            GHCBField::Cpl => 1,
            GHCBField::Reserved2 => 2,
            GHCBField::Xss => 3,
            GHCBField::Reserved3 => 4,
            GHCBField::Dr7 => 5,
            GHCBField::Reserved4 => 6,
            GHCBField::Rax => 7,
            GHCBField::Reserved5 => 8,
            GHCBField::Reserved6 => 9,
            GHCBField::Rcx => 10,
            GHCBField::Rdx => 11,
            GHCBField::Rbx => 12,
            GHCBField::Reserved7 => 13,
            GHCBField::SwExitCode => 14,
            GHCBField::SwExitInfo1 => 15,
            GHCBField::SwExitInfo2 => 16,
            GHCBField::SwScratch => 17,
            GHCBField::Reserved8 => 18,
            GHCBField::Xcr0 => 19,
            GHCBField::ValidBitmap => 20,
            GHCBField::X87StateGpa => 21,
            GHCBField::Reserved9 => 22,
            GHCBField::Buffer => 23,
            GHCBField::Reserved10 => 24,
            GHCBField::Version => 25,
            GHCBField::Usage => 26,
        }
    }

    /// The size of this field in bytes.
    pub open spec fn spec_size(self) -> nat {
        field_sizes()[self.index()]
    }

    /// The offset of this field in the page.
    pub open spec fn spec_offset(self) -> nat {
        field_start(self.index())
    }

    /// The bytes of this field in a page.
    pub open spec fn of_page(self, page: Seq<u8>) -> Seq<u8> {
        page.subrange(self.spec_offset() as int, (self.spec_offset() + self.spec_size()) as int)
    }

    /// The declared offset of this field, where it has one.
    pub open spec fn declared_offset(self) -> Option<u16> {
        match self {
            GHCBField::Cpl => Some(OFF_CPL),
            GHCBField::Xss => Some(OFF_XSS),
            GHCBField::Dr7 => Some(OFF_DR7),
            GHCBField::Rax => Some(OFF_RAX),
            GHCBField::Rcx => Some(OFF_RCX),
            GHCBField::Rdx => Some(OFF_RDX),
            GHCBField::Rbx => Some(OFF_RBX),
            GHCBField::SwExitCode => Some(OFF_SW_EXIT_CODE),
            GHCBField::SwExitInfo1 => Some(OFF_SW_EXIT_INFO_1),
            GHCBField::SwExitInfo2 => Some(OFF_SW_EXIT_INFO_2),
            GHCBField::SwScratch => Some(OFF_SW_SCRATCH),
            GHCBField::Xcr0 => Some(OFF_XCR0),
            GHCBField::ValidBitmap => Some(OFF_VALID_BITMAP),
            GHCBField::X87StateGpa => Some(OFF_X87_STATE_GPA),
            GHCBField::Buffer => Some(OFF_BUFFER),
            GHCBField::Version => Some(OFF_VERSION),
            GHCBField::Usage => Some(OFF_USAGE),
            _ => None,
        }
    }

    fn position(self) -> (k: usize)
        ensures
            k == self.index(),
            k < FIELD_COUNT,
    {
        match self {
            GHCBField::Reserved1 => 0,
            GHCBField::Cpl => 1,
            GHCBField::Reserved2 => 2,
            GHCBField::Xss => 3,
            GHCBField::Reserved3 => 4,
            GHCBField::Dr7 => 5,
            GHCBField::Reserved4 => 6,
            GHCBField::Rax => 7,
            GHCBField::Reserved5 => 8,
            GHCBField::Reserved6 => 9,
            GHCBField::Rcx => 10,
            GHCBField::Rdx => 11,
            GHCBField::Rbx => 12,
            GHCBField::Reserved7 => 13,
            GHCBField::SwExitCode => 14,
            GHCBField::SwExitInfo1 => 15,
            GHCBField::SwExitInfo2 => 16,
            GHCBField::SwScratch => 17,
            GHCBField::Reserved8 => 18,
            GHCBField::Xcr0 => 19,
            GHCBField::ValidBitmap => 20,
            GHCBField::X87StateGpa => 21,
            GHCBField::Reserved9 => 22,
            GHCBField::Buffer => 23,
            GHCBField::Reserved10 => 24,
            GHCBField::Version => 25,
            GHCBField::Usage => 26,
        }
    }

    /// The offset of this field in the page.
    pub fn offset(self) -> (offset: usize)
        ensures
            offset == self.spec_offset(),
    {
        let end = self.position();
        let mut offset: usize = 0;
        let mut k: usize = 0;
        while k < end
            invariant
                k <= end < FIELD_COUNT,
                offset == field_start(k as int),
            decreases end - k,
        {
            proof {
                lemma_field_starts();
                lemma_starts_are_ordered(k + 1, FIELD_COUNT as int);
            }
            offset += size_at(k);
            k += 1;
        }
        offset
    }
}

/// The size of field number `k` in bytes.
fn size_at(k: usize) -> (size: usize)
    requires
        k < FIELD_COUNT,
    ensures
        size == field_sizes()[k as int],
{
    match k {
        0 => 0xcb,
        1 => 0x1,
        2 => 0x74,
        3 => 0x8,
        4 => 0x18,
        5 => 0x8,
        6 => 0x90,
        7 => 0x8,
        8 => 0x100,
        9 => 0x8,
        10 => 0x8,
        11 => 0x8,
        12 => 0x8,
        13 => 0x70,
        14 => 0x8,
        15 => 0x8,
        16 => 0x8,
        17 => 0x8,
        18 => 0x38,
        19 => 0x8,
        20 => 0x10,
        21 => 0x8,
        22 => 0x3f8,
        23 => 0x7f0,
        24 => 0xa,
        25 => 0x2,
        _ => 0x4,
    }
}

/// Where each field begins, and that the fields fill the page.
pub proof fn lemma_field_starts()
    ensures
        field_sizes().len() == FIELD_COUNT,
        field_start(0) == 0x0,
        field_start(1) == 0xcb,
        field_start(2) == 0xcc,
        field_start(3) == 0x140,
        field_start(4) == 0x148,
        field_start(5) == 0x160,
        field_start(6) == 0x168,
        field_start(7) == 0x1f8,
        field_start(8) == 0x200,
        field_start(9) == 0x300,
        field_start(10) == 0x308,
        field_start(11) == 0x310,
        field_start(12) == 0x318,
        field_start(13) == 0x320,
        field_start(14) == 0x390,
        field_start(15) == 0x398,
        field_start(16) == 0x3a0,
        field_start(17) == 0x3a8,
        field_start(18) == 0x3b0,
        field_start(19) == 0x3e8,
        field_start(20) == 0x3f0,
        field_start(21) == 0x400,
        field_start(22) == 0x408,
        field_start(23) == 0x800,
        field_start(24) == 0xff0,
        field_start(25) == 0xffa,
        field_start(26) == 0xffc,
        field_start(27) == 0x1000,
{
    reveal_with_fuel(field_start, 28);
}

proof fn lemma_starts_are_ordered(a: int, b: int)
    requires
        0 <= a <= b,
    ensures
        field_start(a) <= field_start(b),
    decreases b - a,
{
    if a < b {
        lemma_starts_are_ordered(a, b - 1);
    }
}

/// Every field stands at its declared offset.
pub proof fn law_fields_stand_at_their_offsets(field: GHCBField)
    ensures
        field.declared_offset() matches Some(offset) ==> field.spec_offset() == offset,
{
    lemma_field_starts();
}

/// No two fields share a byte of the page.
pub proof fn law_fields_do_not_overlap(a: GHCBField, b: GHCBField)
    requires
        a.index() < b.index(),
    ensures
        a.spec_offset() + a.spec_size() <= b.spec_offset(),
        b.spec_offset() + b.spec_size() <= PAGE_SIZE,
{
    lemma_field_starts();
    lemma_starts_are_ordered(a.index() + 1, b.index());
    lemma_starts_are_ordered(b.index() + 1, FIELD_COUNT as int);
}

/// The parts, one behind the other.
pub open spec fn concat(parts: Seq<Seq<u8>>) -> Seq<u8>
    decreases parts.len(),
{
    if parts.len() == 0 {
        Seq::empty()
    } else {
        concat(parts.drop_last()) + parts.last()
    }
}

/// Whether part `k` has the size of field `k`, for every `k`.
pub open spec fn parts_fit(parts: Seq<Seq<u8>>) -> bool {
    forall|k: int| 0 <= k < parts.len() ==> (#[trigger] parts[k]).len() == field_sizes()[k]
}

pub(crate) proof fn lemma_concat_next(parts: Seq<Seq<u8>>, k: int)
    requires
        0 <= k < parts.len(),
    ensures
        concat(parts.take(k + 1)) == concat(parts.take(k)) + parts[k],
{
    assert(parts.take(k + 1).drop_last() =~= parts.take(k));
}

/// Parts that have the sizes of the fields stand where the fields stand.
pub(crate) proof fn lemma_part_of_concat(parts: Seq<Seq<u8>>, k: int)
    requires
        parts_fit(parts),
    ensures
        concat(parts).len() == field_start(parts.len() as int),
        0 <= k < parts.len() ==> {
            &&& field_start(k + 1) <= concat(parts).len()
            &&& concat(parts).subrange(field_start(k) as int, field_start(k + 1) as int) == parts[k]
        },
    decreases parts.len(),
{
    if parts.len() > 0 {
        let init = parts.drop_last();
        assert forall|i: int| 0 <= i < init.len() implies (#[trigger] init[i]).len()
            == field_sizes()[i] by {
            assert(init[i] == parts[i]);
        }
        lemma_part_of_concat(init, k);
        assert(parts.last() == parts[parts.len() - 1]);
        if 0 <= k < init.len() {
            assert(concat(parts).subrange(field_start(k) as int, field_start(k + 1) as int)
                =~= concat(init).subrange(field_start(k) as int, field_start(k + 1) as int));
            assert(init[k] == parts[k]);
        } else if k == init.len() {
            assert(concat(parts).subrange(field_start(k) as int, field_start(k + 1) as int)
                =~= parts.last());
        }
    }
}

/// A page cut at the fields and put together again is that page.
pub(crate) proof fn lemma_concat_of_page(parts: Seq<Seq<u8>>, page: Seq<u8>)
    requires
        field_start(parts.len() as int) <= page.len(),
        forall|k: int|
            0 <= k < parts.len() ==> #[trigger] parts[k] == page.subrange(
                field_start(k) as int,
                field_start(k + 1) as int,
            ),
    ensures
        concat(parts) == page.take(field_start(parts.len() as int) as int),
    decreases parts.len(),
{
    if parts.len() > 0 {
        let init = parts.drop_last();
        let n = init.len() as int;
        assert forall|k: int| 0 <= k < init.len() implies #[trigger] init[k] == page.subrange(
            field_start(k) as int,
            field_start(k + 1) as int,
        ) by {
            assert(init[k] == parts[k]);
        }
        lemma_concat_of_page(init, page);
        assert(parts.last() == parts[n]);
        assert(page.take(field_start(n) as int) + page.subrange(
            field_start(n) as int,
            field_start(n + 1) as int,
        ) =~= page.take(field_start(n + 1) as int));
    } else {
        assert(page.take(0) =~= Seq::empty());
    }
}

/// The offset and the size of every field.
pub proof fn law_layout_of_the_page(field: GHCBField)
    ensures
        (field.spec_offset(), field.spec_size()) == match field {
            GHCBField::Reserved1 => (0nat, 0xcbnat),
            GHCBField::Cpl => (0xcb, 0x1),
            GHCBField::Reserved2 => (0xcc, 0x74),
            GHCBField::Xss => (0x140, 0x8),
            GHCBField::Reserved3 => (0x148, 0x18),
            GHCBField::Dr7 => (0x160, 0x8),
            GHCBField::Reserved4 => (0x168, 0x90),
            GHCBField::Rax => (0x1f8, 0x8),
            GHCBField::Reserved5 => (0x200, 0x100),
            GHCBField::Reserved6 => (0x300, 0x8),
            GHCBField::Rcx => (0x308, 0x8),
            GHCBField::Rdx => (0x310, 0x8),
            GHCBField::Rbx => (0x318, 0x8),
            GHCBField::Reserved7 => (0x320, 0x70),
            GHCBField::SwExitCode => (0x390, 0x8),
            GHCBField::SwExitInfo1 => (0x398, 0x8),
            GHCBField::SwExitInfo2 => (0x3a0, 0x8),
            GHCBField::SwScratch => (0x3a8, 0x8),
            GHCBField::Reserved8 => (0x3b0, 0x38),
            GHCBField::Xcr0 => (0x3e8, 0x8),
            GHCBField::ValidBitmap => (0x3f0, 0x10),
            GHCBField::X87StateGpa => (0x400, 0x8),
            GHCBField::Reserved9 => (0x408, 0x3f8),
            GHCBField::Buffer => (0x800, 0x7f0),
            GHCBField::Reserved10 => (0xff0, 0xa),
            GHCBField::Version => (0xffa, 0x2),
            GHCBField::Usage => (0xffc, 0x4),
        },
        PAGE_SIZE == 0x1000,
        OFF_CPL == 0xcb,
        OFF_XSS == 0x140,
        OFF_DR7 == 0x160,
        OFF_RAX == 0x1f8,
        OFF_RCX == 0x308,
        OFF_RDX == 0x310,
        OFF_RBX == 0x318,
        OFF_SW_EXIT_CODE == 0x390,
        OFF_SW_EXIT_INFO_1 == 0x398,
        OFF_SW_EXIT_INFO_2 == 0x3a0,
        OFF_SW_SCRATCH == 0x3a8,
        OFF_XCR0 == 0x3e8,
        OFF_VALID_BITMAP == 0x3f0,
        OFF_X87_STATE_GPA == 0x400,
        OFF_BUFFER == 0x800,
        OFF_VERSION == 0xffa,
        OFF_USAGE == 0xffc,
{
    lemma_field_starts();
}

} // verus!
