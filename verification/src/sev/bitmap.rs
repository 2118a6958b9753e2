//! The valid bitmap: one bit for each eight-byte slot of the GHCB save area.
//!
//! In specifications the bitmap is the set of the slots whose bit is set.

use vstd::prelude::*;

use crate::types::PAGE_SIZE;

verus! {

/// Number of slots that the bitmap covers.
pub const VALID_SLOTS: usize = 128;

/// The slot whose bit stands for the field at `offset`. The bitmap covers the
/// first 0x400 bytes of the page; an offset beyond them wraps around.
pub open spec fn slot_of(offset: u16) -> int {
    (offset as int / 8) % (VALID_SLOTS as int)
}

/// Whether bit `b` of a bitmap word is set.
pub open spec fn word_bit(w: u64, b: int) -> bool {
    (w >> (b as u64)) & 1 == 1
}

/// Whether bit `b` of a byte is set.
pub open spec fn byte_bit(x: u8, b: int) -> bool {
    (x >> (b as u8)) & 1 == 1
}

/// Whether a bitmap of two words marks slot `s`.
pub open spec fn marks(words: Seq<u64>, s: int) -> bool {
    0 <= s < VALID_SLOTS && word_bit(words[s / 64], s % 64)
}

/// The slots that a bitmap of two words marks.
pub open spec fn marked(words: Seq<u64>) -> Set<int> {
    Set::new(|s: int| marks(words, s))
}

/// Whether a bitmap of sixteen bytes marks slot `s`.
pub open spec fn marks_in_bytes(bytes: Seq<u8>, s: int) -> bool {
    0 <= s < VALID_SLOTS && byte_bit(bytes[s / 8], s % 8)
}

/// The slots that a bitmap of sixteen bytes marks.
pub open spec fn marked_in_bytes(bytes: Seq<u8>) -> Set<int> {
    Set::new(|s: int| marks_in_bytes(bytes, s))
}

/// The bit of slot `s`, as a number.
pub open spec fn slot_bit(valid: Set<int>, s: int) -> u8 {
    if valid.contains(s) {
        1
    } else {
        0
    }
}

/// Byte `k` of the bitmap that marks the slots in `valid`.
pub open spec fn bitmap_byte(valid: Set<int>, k: int) -> u8 {
    slot_bit(valid, 8 * k) | (slot_bit(valid, 8 * k + 1) << 1) | (slot_bit(valid, 8 * k + 2) << 2)
        | (slot_bit(valid, 8 * k + 3) << 3) | (slot_bit(valid, 8 * k + 4) << 4) | (slot_bit(
        valid,
        8 * k + 5,
    ) << 5) | (slot_bit(valid, 8 * k + 6) << 6) | (slot_bit(valid, 8 * k + 7) << 7)
}

/// The sixteen bytes of the bitmap that marks the slots in `valid`.
pub open spec fn bitmap_bytes(valid: Set<int>) -> Seq<u8> {
    Seq::new(16, |k: int| bitmap_byte(valid, k))
}

/// Two fields of the covered area share a bit exactly if they share a slot.
pub proof fn law_slots_are_distinct(a: u16, b: u16)
    requires
        a < 0x400,
        b < 0x400,
    ensures
        slot_of(a) == slot_of(b) <==> a / 8 == b / 8,
{
}

/// An offset beyond the covered area has the bit of the offset 0x400 below it.
pub proof fn law_slots_wrap_around(a: u16)
    requires
        a >= 0x400,
    ensures
        slot_of(a) == slot_of((a - 0x400) as u16),
{
}

/// Where the bit of `offset` is found: the word and the bit in that word.
pub(crate) proof fn lemma_slot_position(offset: u16, bit: usize, index: usize)
    requires
        bit == (offset as usize >> 3) & 0x3f,
        index == (offset as usize >> 9) & 0x1,
    ensures
        bit < 64,
        index < 2,
        slot_of(offset) / 64 == index,
        slot_of(offset) % 64 == bit,
{
    let o = offset as usize;
    assert((o >> 3) & 0x3f == (o / 8) % 64) by (bit_vector);
    assert((o >> 9) & 0x1 == (o / 512) % 2) by (bit_vector);
}

/// Setting a bit of a word marks its slot and no other.
pub(crate) proof fn lemma_mark(words: Seq<u64>, slot: int, mask: u64)
    requires
        words.len() == 2,
        0 <= slot < VALID_SLOTS,
        mask == 1u64 << ((slot % 64) as u64),
    ensures
        marked(words.update(slot / 64, words[slot / 64] | mask)) == marked(words).insert(slot),
{
    let w = words[slot / 64];
    let b = (slot % 64) as u64;
    let after = words.update(slot / 64, w | mask);
    assert forall|s: int| marks(after, s) == (marks(words, s) || s == slot) by {
        let c = (s % 64) as u64;
        assert(((w | (1u64 << b)) >> c) & 1 == 1 <==> ((w >> c) & 1 == 1 || c == b)) by (bit_vector)
            requires
                b < 64,
                c < 64,
        ;
    }
    assert(marked(after) =~= marked(words).insert(slot));
}

/// Testing a word against the mask of one bit reads that bit.
pub(crate) proof fn lemma_test(w: u64, b: int, mask: u64)
    requires
        0 <= b < 64,
        mask == 1u64 << (b as u64),
    ensures
        (w & mask == mask) == word_bit(w, b),
{
    let c = b as u64;
    assert((w & (1u64 << c) == (1u64 << c)) == ((w >> c) & 1 == 1)) by (bit_vector)
        requires
            c < 64,
    ;
}

/// Two zero words mark nothing.
pub(crate) proof fn lemma_none_marked(words: Seq<u64>)
    requires
        words == seq![0u64, 0u64],
    ensures
        marked(words) == Set::<int>::empty(),
{
    assert forall|b: int| 0 <= b < 64 implies !word_bit(0, b) by {
        let c = b as u64;
        assert((0u64 >> c) & 1 == 0) by (bit_vector);
    }
    assert(marked(words) =~= Set::empty());
}

/// A byte is made of its bits.
proof fn lemma_byte_of_bits(valid: Set<int>, k: int, x: u8)
    requires
        forall|j: int| 0 <= j < 8 ==> byte_bit(x, j) == valid.contains(8 * k + j),
    ensures
        bitmap_byte(valid, k) == x,
{
    assert forall|j: u8| j < 8 implies (x >> j) & 1 == slot_bit(valid, 8 * k + j) by {
        assert((x >> j) & 1 == 0 || (x >> j) & 1 == 1) by (bit_vector);
        assert(byte_bit(x, j as int) == valid.contains(8 * k + j));
    }
    let (b0, b1, b2, b3) = ((x >> 0) & 1, (x >> 1) & 1, (x >> 2) & 1, (x >> 3) & 1);
    let (b4, b5, b6, b7) = ((x >> 4) & 1, (x >> 5) & 1, (x >> 6) & 1, (x >> 7) & 1);
    assert(b0 | (b1 << 1) | (b2 << 2) | (b3 << 3) | (b4 << 4) | (b5 << 5) | (b6 << 6) | (b7 << 7)
        == x) by (bit_vector)
        requires
            b0 == (x >> 0) & 1,
            b1 == (x >> 1) & 1,
            b2 == (x >> 2) & 1,
            b3 == (x >> 3) & 1,
            b4 == (x >> 4) & 1,
            b5 == (x >> 5) & 1,
            b6 == (x >> 6) & 1,
            b7 == (x >> 7) & 1,
    ;
}

/// The bits of a bitmap byte are those of its slots.
proof fn lemma_bits_of_byte(valid: Set<int>, k: int, j: int)
    requires
        0 <= j < 8,
    ensures
        byte_bit(bitmap_byte(valid, k), j) == valid.contains(8 * k + j),
{
    let x = bitmap_byte(valid, k);
    let (b0, b1) = (slot_bit(valid, 8 * k), slot_bit(valid, 8 * k + 1));
    let (b2, b3) = (slot_bit(valid, 8 * k + 2), slot_bit(valid, 8 * k + 3));
    let (b4, b5) = (slot_bit(valid, 8 * k + 4), slot_bit(valid, 8 * k + 5));
    let (b6, b7) = (slot_bit(valid, 8 * k + 6), slot_bit(valid, 8 * k + 7));
    assert((x >> 0) & 1 == b0 && (x >> 1) & 1 == b1 && (x >> 2) & 1 == b2 && (x >> 3) & 1 == b3 && (
    x >> 4) & 1 == b4 && (x >> 5) & 1 == b5 && (x >> 6) & 1 == b6 && (x >> 7) & 1 == b7)
        by (bit_vector)
        requires
            x == b0 | (b1 << 1) | (b2 << 2) | (b3 << 3) | (b4 << 4) | (b5 << 5) | (b6 << 6) | (b7
                << 7),
            b0 <= 1,
            b1 <= 1,
            b2 <= 1,
            b3 <= 1,
            b4 <= 1,
            b5 <= 1,
            b6 <= 1,
            b7 <= 1,
    ;
}

/// The slots marked in the bytes of a bitmap are the slots it was made for.
pub proof fn lemma_marked_in_bitmap_bytes(valid: Set<int>)
    requires
        forall|s: int| valid.contains(s) ==> 0 <= s < VALID_SLOTS,
    ensures
        marked_in_bytes(bitmap_bytes(valid)) == valid,
{
    assert forall|s: int| marks_in_bytes(bitmap_bytes(valid), s) == valid.contains(s) by {
        if 0 <= s < VALID_SLOTS {
            lemma_bits_of_byte(valid, s / 8, s % 8);
            assert(8 * (s / 8) + s % 8 == s);
        }
    }
    assert(marked_in_bytes(bitmap_bytes(valid)) =~= valid);
}

/// The bytes of the bitmap that marks what sixteen bytes mark are those bytes.
pub proof fn lemma_bitmap_bytes_of_marked(bytes: Seq<u8>)
    requires
        bytes.len() == 16,
    ensures
        bitmap_bytes(marked_in_bytes(bytes)) == bytes,
{
    assert forall|k: int| 0 <= k < 16 implies bitmap_byte(marked_in_bytes(bytes), k) == bytes[k]
        by {
        assert forall|j: int| 0 <= j < 8 implies byte_bit(bytes[k], j) == marked_in_bytes(
            bytes,
        ).contains(8 * k + j) by {
            assert((8 * k + j) / 8 == k && (8 * k + j) % 8 == j);
        }
        lemma_byte_of_bits(marked_in_bytes(bytes), k, bytes[k]);
    }
    assert(bitmap_bytes(marked_in_bytes(bytes)) =~= bytes);
}

/// Writes the bytes of a bitmap into a page, from `at` on.
pub(crate) fn write_bitmap(page: &mut [u8; PAGE_SIZE], at: usize, words: &[u64; 2])
    requires
        at + 16 <= PAGE_SIZE,
    ensures
        final(page)@.take(at + 16) == old(page)@.take(at as int) + bitmap_bytes(marked(words@)),
        final(page)@.skip(at + 16) == old(page)@.skip(at + 16),
{
    let ghost valid = marked(words@);
    let mut k: usize = 0;
    while k < 16
        invariant
            k <= 16,
            at + 16 <= PAGE_SIZE,
            valid == marked(words@),
            page@.take(at + k) == old(page)@.take(at as int) + bitmap_bytes(valid).take(k as int),
            page@.skip(at + 16) == old(page)@.skip(at + 16),
        decreases 16 - k,
    {
        let w: u64 = words[k / 8];
        let shift: u64 = 8 * (k % 8) as u64;
        let byte: u8 = ((w >> shift) & 0xff) as u8;
        let ghost before = page@;
        page[at + k] = byte;
        proof {
            assert forall|j: int| 0 <= j < 8 implies byte_bit(byte, j) == valid.contains(8 * k + j)
                by {
                let c = j as u8;
                let d = (shift + j) as u64;
                assert((((((w >> shift) & 0xff) as u8) >> c) & 1 == 1) == ((w >> d) & 1 == 1))
                    by (bit_vector)
                    requires
                        shift <= 56,
                        c < 8,
                        d == shift + c,
                ;
                assert((8 * k + j) / 64 == k / 8);
                assert((8 * k + j) % 64 == shift + j);
            }
            lemma_byte_of_bits(valid, k as int, byte);
            assert(bitmap_bytes(valid).take(k + 1) =~= bitmap_bytes(valid).take(k as int).push(
                byte,
            ));
            assert(page@.take(at + k + 1) =~= before.take(at + k).push(byte));
            assert(page@.skip(at + 16) =~= before.skip(at + 16));
        }
        k += 1;
    }
    assert(bitmap_bytes(valid).take(16) =~= bitmap_bytes(valid));
}

/// Reads a bitmap word at `offset` of a page.
fn read_word(page: &[u8; PAGE_SIZE], offset: usize) -> (w: u64)
    requires
        offset + 8 <= PAGE_SIZE,
    ensures
        forall|b: int|
            0 <= b < 64 ==> word_bit(w, b) == byte_bit(page@[offset + b / 8], b % 8),
{
    let mut w: u64 = 0;
    let mut k: usize = 0;
    proof {
        assert forall|b: int| 0 <= b < 64 implies !word_bit(0, b) by {
            let c = b as u64;
            assert((0u64 >> c) & 1 == 0) by (bit_vector);
        }
    }
    while k < 8
        invariant
            k <= 8,
            offset + 8 <= PAGE_SIZE,
            forall|b: int|
                0 <= b < 64 ==> word_bit(w, b) == (b < 8 * k && byte_bit(
                    page@[offset + b / 8],
                    b % 8,
                )),
        decreases 8 - k,
    {
        let x: u8 = page[offset + k];
        let shift: u64 = 8 * k as u64;
        let ghost before = w;
        w = w | ((x as u64) << shift);
        proof {
            assert forall|b: int| 0 <= b < 64 implies word_bit(w, b) == (b < 8 * (k + 1)
                && byte_bit(page@[offset + b / 8], b % 8)) by {
                let c = b as u64;
                let d = (b % 8) as u8;
                assert(((before | ((x as u64) << shift)) >> c) & 1 == 1 <==> (((before >> c) & 1
                    == 1) || (shift <= c && c < shift + 8 && ((x >> d) & 1 == 1)))) by (bit_vector)
                    requires
                        shift % 8 == 0,
                        shift <= 56,
                        c < 64,
                        d as u64 == c % 8,
                ;
                assert(word_bit(before, b) == (b < 8 * k && byte_bit(
                    page@[offset + b / 8],
                    b % 8,
                )));
            }
        }
        k += 1;
    }
    w
}

/// Reads the bitmap at `offset` of a page.
pub(crate) fn read_bitmap(page: &[u8; PAGE_SIZE], offset: usize) -> (words: [u64; 2])
    requires
        offset + 16 <= PAGE_SIZE,
    ensures
        marked(words@) == marked_in_bytes(page@.subrange(offset as int, offset + 16)),
{
    let lo = read_word(page, offset);
    let hi = read_word(page, offset + 8);
    let words = [lo, hi];
    proof {
        let part = page@.subrange(offset as int, offset + 16);
        assert forall|s: int| marks(words@, s) == marks_in_bytes(part, s) by {
            let b = s % 64;
            if s < 0 || s >= VALID_SLOTS {
            } else if s < 64 {
                assert(words@[s / 64] == lo);
                assert(word_bit(lo, b) == byte_bit(page@[offset + b / 8], b % 8));
            } else {
                assert(words@[s / 64] == hi);
                assert(word_bit(hi, b) == byte_bit(page@[offset + 8 + b / 8], b % 8));
                assert(s / 8 == 8 + b / 8);
            }
        }
        assert(marked(words@) =~= marked_in_bytes(part));
    }
    words
}

/// The slot of a field is its offset in quadwords, modulo 128.
pub proof fn law_slot_is_the_quadword(offset: u16)
    ensures
        slot_of(offset) == (offset / 8) % 128,
        0 <= slot_of(offset) < 128,
{
}

/// Bit `j` of byte `k` of a bitmap stands for slot `8 * k + j`, both when the
/// bitmap is written and when it is read.
pub proof fn law_bit_stands_for_its_slot(valid: Set<int>, bytes: Seq<u8>, s: int)
    requires
        0 <= s < 128,
    ensures
        bitmap_bytes(valid).len() == 16,
        (bitmap_bytes(valid)[s / 8] >> ((s % 8) as u8)) & 1 == 1 <==> valid.contains(s),
        marked_in_bytes(bytes).contains(s) <==> (bytes[s / 8] >> ((s % 8) as u8)) & 1 == 1,
{
    lemma_bits_of_byte(valid, s / 8, s % 8);
    assert(8 * (s / 8) + s % 8 == s);
}

} // verus!
