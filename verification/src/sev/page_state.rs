//! Page state changes: the request that the GHCB's buffer carries when the
//! guest asks for pages to change owner or size.

use vstd::prelude::*;

use crate::bytes;
use crate::sev::layout::GHCBField;

verus! {

/// How many entries a request holds.
pub const PSC_ENTRIES: usize = 253;

/// Size of a [`PageStateChange`] in memory.
pub const PSC_SIZE: usize = 0x7f0;

/// A list of pages that are to change state. It fills the buffer of the GHCB.
///
/// In memory the fields follow one another in this order, with no gap.
pub struct PageStateChange {
    cur_entry: u16,
    end_entry: u16,
    reserved: u32,
    entries: [u64; PSC_ENTRIES],
}

/// What a [`PageStateChange`] holds.
pub struct PageStateChangeView {
    pub cur_entry: u16,
    pub end_entry: u16,
    pub reserved: u32,
    pub entries: Seq<u64>,
}

impl View for PageStateChange {
    type V = PageStateChangeView;

    closed spec fn view(&self) -> PageStateChangeView {
        PageStateChangeView {
            cur_entry: self.cur_entry,
            end_entry: self.end_entry,
            reserved: self.reserved,
            entries: self.entries@,
        }
    }
}

/// The bytes of entries, one behind the other.
pub open spec fn entries_bytes(entries: Seq<u64>) -> Seq<u8>
    decreases entries.len(),
{
    if entries.len() == 0 {
        Seq::empty()
    } else {
        entries_bytes(entries.drop_last()) + bytes::le_bytes(entries.last() as nat, 8)
    }
}

/// The first `n` entries in the memory of a request.
pub open spec fn entries_of_image(image: Seq<u8>, n: nat) -> Seq<u64> {
    Seq::new(n, |i: int| bytes::le_value(image.subrange(8 + 8 * i, 16 + 8 * i)) as u64)
}

impl PageStateChangeView {
    /// The bytes of this in memory.
    pub open spec fn image(self) -> Seq<u8> {
        bytes::le_bytes(self.cur_entry as nat, 2) + bytes::le_bytes(self.end_entry as nat, 2)
            + bytes::le_bytes(self.reserved as nat, 4) + entries_bytes(self.entries)
    }

    /// What these bytes of memory hold.
    pub open spec fn of_image(image: Seq<u8>) -> PageStateChangeView {
        PageStateChangeView {
            cur_entry: bytes::le_value(image.subrange(0, 2)) as u16,
            end_entry: bytes::le_value(image.subrange(2, 4)) as u16,
            reserved: bytes::le_value(image.subrange(4, 8)) as u32,
            entries: entries_of_image(image, PSC_ENTRIES as nat),
        }
    }
}

impl PageStateChange {
    /// The bytes of this in memory.
    pub fn to_bytes(&self) -> (image: [u8; PSC_SIZE])
        ensures
            image@ == self@.image(),
    {
        let mut image = [0u8; PSC_SIZE];
        assert(image@.take(0) =~= Seq::empty());
        bytes::write_le(&mut image, 0, self.cur_entry as u64, 2);
        bytes::write_le(&mut image, 2, self.end_entry as u64, 2);
        bytes::write_le(&mut image, 4, self.reserved as u64, 4);
        let ghost head = image@.take(8);
        let mut i: usize = 0;
        assert(head + entries_bytes(self.entries@.take(0)) =~= head);
        while i < PSC_ENTRIES
            invariant
                i <= PSC_ENTRIES,
                image@.take(8 + 8 * i) == head + entries_bytes(self.entries@.take(i as int)),
            decreases PSC_ENTRIES - i,
        {
            bytes::write_le(&mut image, 8 + 8 * i, self.entries[i], 8);
            proof {
                let next = self.entries@.take(i + 1);
                assert(next.drop_last() =~= self.entries@.take(i as int));
                assert(image@.take(8 + 8 * (i + 1)) =~= head + entries_bytes(next));
            }
            i += 1;
        }
        proof {
            assert(self.entries@.take(PSC_ENTRIES as int) =~= self.entries@);
            assert(image@.take(PSC_SIZE as int) =~= image@);
            assert(head =~= bytes::le_bytes(self.cur_entry as nat, 2) + bytes::le_bytes(
                self.end_entry as nat,
                2,
            ) + bytes::le_bytes(self.reserved as nat, 4));
        }
        image
    }

    /// What these bytes of memory hold.
    pub fn from_bytes(image: &[u8; PSC_SIZE]) -> (request: PageStateChange)
        ensures
            request@ == PageStateChangeView::of_image(image@),
    {
        proof {
            bytes::lemma_pow256_values();
            bytes::lemma_le_value_bound(image@.subrange(0, 2));
            bytes::lemma_le_value_bound(image@.subrange(2, 4));
            bytes::lemma_le_value_bound(image@.subrange(4, 8));
        }
        let mut entries = [0u64; PSC_ENTRIES];
        let mut i: usize = 0;
        while i < PSC_ENTRIES
            invariant
                i <= PSC_ENTRIES,
                forall|j: int|
                    0 <= j < i ==> #[trigger] entries@[j] == entries_of_image(
                        image@,
                        PSC_ENTRIES as nat,
                    )[j],
            decreases PSC_ENTRIES - i,
        {
            entries[i] = bytes::read_le(image, 8 + 8 * i, 8);
            i += 1;
        }
        assert(entries@ =~= entries_of_image(image@, PSC_ENTRIES as nat));
        PageStateChange {
            cur_entry: bytes::read_le(image, 0, 2) as u16,
            end_entry: bytes::read_le(image, 2, 2) as u16,
            reserved: bytes::read_le(image, 4, 4) as u32,
            entries,
        }
    }
}

/// Where the entries stand among their bytes.
proof fn lemma_entry_in_bytes(entries: Seq<u64>, i: int)
    ensures
        entries_bytes(entries).len() == 8 * entries.len(),
        0 <= i < entries.len() ==> entries_bytes(entries).subrange(8 * i, 8 * i + 8)
            == bytes::le_bytes(entries[i] as nat, 8),
    decreases entries.len(),
{
    if entries.len() > 0 {
        let init = entries.drop_last();
        lemma_entry_in_bytes(init, i);
        bytes::lemma_le_bytes_len(entries.last() as nat, 8);
        if 0 <= i < init.len() {
            assert(entries_bytes(entries).subrange(8 * i, 8 * i + 8) =~= entries_bytes(
                init,
            ).subrange(8 * i, 8 * i + 8));
        } else if i == init.len() {
            assert(entries_bytes(entries).subrange(8 * i, 8 * i + 8) =~= bytes::le_bytes(
                entries.last() as nat,
                8,
            ));
        }
    }
}

/// The bytes of the entries that memory holds are those of memory.
proof fn lemma_bytes_of_entries(image: Seq<u8>, n: nat)
    requires
        8 + 8 * n <= image.len(),
    ensures
        entries_bytes(entries_of_image(image, n)) == image.subrange(8, (8 + 8 * n) as int),
    decreases n,
{
    let entries = entries_of_image(image, n);
    if n == 0 {
        assert(image.subrange(8, 8) =~= Seq::empty());
    } else {
        let m = n - 1;
        lemma_bytes_of_entries(image, m as nat);
        assert(entries.drop_last() =~= entries_of_image(image, m as nat));
        bytes::lemma_number_is_kept(image.subrange(8 + 8 * m, 16 + 8 * m));
        assert(image.subrange(8, 8 + 8 * m) + image.subrange(8 + 8 * m, 16 + 8 * m)
            =~= image.subrange(8, (8 + 8 * n) as int));
    }
}

/// The fields stand in memory one behind the other, in their order, and fill
/// the buffer of the GHCB.
pub proof fn law_page_state_fields_stand_in_order(v: PageStateChangeView, i: int)
    requires
        v.entries.len() == PSC_ENTRIES,
        0 <= i < PSC_ENTRIES,
    ensures
        v.image().len() == PSC_SIZE,
        PSC_SIZE == GHCBField::Buffer.spec_size(),
        v.image().subrange(0, 2) == bytes::le_bytes(v.cur_entry as nat, 2),
        v.image().subrange(2, 4) == bytes::le_bytes(v.end_entry as nat, 2),
        v.image().subrange(4, 8) == bytes::le_bytes(v.reserved as nat, 4),
        v.image().subrange(8 + 8 * i, 16 + 8 * i) == bytes::le_bytes(v.entries[i] as nat, 8),
{
    bytes::lemma_le_bytes_len(v.cur_entry as nat, 2);
    bytes::lemma_le_bytes_len(v.end_entry as nat, 2);
    bytes::lemma_le_bytes_len(v.reserved as nat, 4);
    lemma_entry_in_bytes(v.entries, i);
    assert(v.image().subrange(8 + 8 * i, 16 + 8 * i) =~= entries_bytes(v.entries).subrange(
        8 * i,
        8 * i + 8,
    ));
}

/// What is written to memory is read from it.
pub proof fn law_page_state_change_is_read_back(v: PageStateChangeView)
    requires
        v.entries.len() == PSC_ENTRIES,
    ensures
        PageStateChangeView::of_image(v.image()) == v,
{
    law_page_state_fields_stand_in_order(v, 0);
    bytes::lemma_pow256_values();
    bytes::lemma_value_of_le_bytes(v.cur_entry as nat, 2);
    bytes::lemma_value_of_le_bytes(v.end_entry as nat, 2);
    bytes::lemma_value_of_le_bytes(v.reserved as nat, 4);
    let read = entries_of_image(v.image(), PSC_ENTRIES as nat);
    assert forall|i: int| 0 <= i < PSC_ENTRIES implies read[i] == v.entries[i] by {
        law_page_state_fields_stand_in_order(v, i);
        bytes::lemma_value_of_le_bytes(v.entries[i] as nat, 8);
    }
    assert(read =~= v.entries);
}

/// Memory is determined by what it holds: read and written again it is the
/// same.
pub proof fn law_page_state_image_is_kept(image: Seq<u8>)
    requires
        image.len() == PSC_SIZE,
    ensures
        PageStateChangeView::of_image(image).image() == image,
{
    bytes::lemma_pow256_values();
    bytes::lemma_le_value_bound(image.subrange(0, 2));
    bytes::lemma_le_value_bound(image.subrange(2, 4));
    bytes::lemma_le_value_bound(image.subrange(4, 8));
    bytes::lemma_le_bytes_of_value(image.subrange(0, 2));
    bytes::lemma_le_bytes_of_value(image.subrange(2, 4));
    bytes::lemma_le_bytes_of_value(image.subrange(4, 8));
    lemma_bytes_of_entries(image, PSC_ENTRIES as nat);
    assert(image.subrange(0, 2) + image.subrange(2, 4) + image.subrange(4, 8) + image.subrange(
        8,
        PSC_SIZE as int,
    ) =~= image);
}

/// Every request has its entries, whichever way it has come about.
pub proof fn law_page_state_change_has_its_entries(request: &PageStateChange)
    ensures
        request@.entries.len() == PSC_ENTRIES,
{
}

/// What is to happen to a page.
#[derive(Clone, Copy, Debug, PartialEq, Eq, Structural)]
pub enum PageStateChangeOp {
    PscPrivate,
    PscShared,
    PscPsmash,
    PscUnsmash,
}

/// The bits of an entry that hold the address of the page.
const _PSC_GFN_MASK: u64 = 0x000f_ffff_ffff_f000;

/// Where the operation stands in an entry.
const _PSC_OP_SHIFT: u8 = 52;

const _PSC_OP_PRIVATE: u64 = 1 << _PSC_OP_SHIFT;

const _PSC_OP_SHARED: u64 = 2 << _PSC_OP_SHIFT;

const _PSC_OP_PSMASH: u64 = 3 << _PSC_OP_SHIFT;

const _PSC_OP_UNSMASH: u64 = 4 << _PSC_OP_SHIFT;

/// Where the flag for a huge page stands in an entry.
const _PSC_FLAG_HUGE_SHIFT: u8 = 56;

const _PSC_FLAG_HUGE: u64 = 1 << _PSC_FLAG_HUGE_SHIFT;

} // verus!
