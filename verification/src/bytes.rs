//! Little-endian numbers and their bytes.

use vstd::prelude::*;

verus! {

/// The `n` bytes of `x`, least significant byte first.
pub open spec fn le_bytes(x: nat, n: nat) -> Seq<u8>
    decreases n,
{
    if n == 0 {
        Seq::empty()
    } else {
        seq![(x % 256) as u8] + le_bytes(x / 256, (n - 1) as nat)
    }
}

/// The number whose bytes, least significant byte first, are `s`.
pub open spec fn le_value(s: Seq<u8>) -> nat
    decreases s.len(),
{
    if s.len() == 0 {
        0
    } else {
        s[0] as nat + 256 * le_value(s.drop_first())
    }
}

/// How many numbers fit in `n` bytes.
pub open spec fn pow256(n: nat) -> nat
    decreases n,
{
    if n == 0 {
        1
    } else {
        256 * pow256((n - 1) as nat)
    }
}

pub proof fn lemma_le_bytes_len(x: nat, n: nat)
    ensures
        le_bytes(x, n).len() == n,
    decreases n,
{
    if n > 0 {
        lemma_le_bytes_len(x / 256, (n - 1) as nat);
    }
}

pub proof fn lemma_le_value_bound(s: Seq<u8>)
    ensures
        le_value(s) < pow256(s.len()),
    decreases s.len(),
{
    if s.len() > 0 {
        lemma_le_value_bound(s.drop_first());
    }
}

/// A number that fits in `n` bytes is read back from them.
pub proof fn lemma_value_of_le_bytes(x: nat, n: nat)
    requires
        x < pow256(n),
    ensures
        le_value(le_bytes(x, n)) == x,
    decreases n,
{
    if n > 0 {
        let rest = le_bytes(x / 256, (n - 1) as nat);
        lemma_value_of_le_bytes(x / 256, (n - 1) as nat);
        assert(le_bytes(x, n).drop_first() =~= rest);
    }
}

/// Bytes are written back from the number they stand for.
pub proof fn lemma_le_bytes_of_value(s: Seq<u8>)
    ensures
        le_bytes(le_value(s), s.len()) == s,
    decreases s.len(),
{
    if s.len() > 0 {
        let rest = s.drop_first();
        lemma_le_bytes_of_value(rest);
        assert(le_value(s) % 256 == s[0]);
        assert(le_value(s) / 256 == le_value(rest));
        assert(seq![s[0]] + rest =~= s);
    } else {
        assert(s =~= Seq::empty());
    }
}

pub proof fn lemma_pow256_values()
    ensures
        pow256(1) == 0x100,
        pow256(2) == 0x1_0000,
        pow256(4) == 0x1_0000_0000,
        pow256(8) == 0x1_0000_0000_0000_0000,
{
    reveal_with_fuel(pow256, 9);
}

/// Eight bytes are written back from the `u64` that they stand for.
pub proof fn lemma_number_is_kept(s: Seq<u8>)
    requires
        s.len() == 8,
    ensures
        le_bytes((le_value(s) as u64) as nat, 8) == s,
{
    lemma_pow256_values();
    lemma_le_value_bound(s);
    lemma_le_bytes_of_value(s);
}

/// Writes the `n` low bytes of `x` into `out` from `at` on, least significant
/// byte first.
pub(crate) fn write_le<const N: usize>(out: &mut [u8; N], at: usize, x: u64, n: usize)
    requires
        at + n <= N,
    ensures
        final(out)@.take(at + n) == old(out)@.take(at as int) + le_bytes(x as nat, n as nat),
        final(out)@.skip(at + n) == old(out)@.skip(at + n),
{
    let mut rest: u64 = x;
    let mut i: usize = 0;
    while i < n
        invariant
            i <= n,
            at + n <= N,
            out@.take(at + i) + le_bytes(rest as nat, (n - i) as nat) == old(out)@.take(at as int)
                + le_bytes(x as nat, n as nat),
            out@.skip(at + n) == old(out)@.skip(at + n),
        decreases n - i,
    {
        let ghost before = out@;
        out[at + i] = (rest % 256) as u8;
        proof {
            assert(out@.take(at + i + 1) + le_bytes((rest / 256) as nat, (n - i - 1) as nat)
                =~= before.take(at + i) + le_bytes(rest as nat, (n - i) as nat));
            assert(out@.skip(at + n) =~= before.skip(at + n));
        }
        rest = rest / 256;
        i += 1;
    }
    assert(out@.take(at + n) + le_bytes(rest as nat, 0) =~= out@.take(at + n));
}

/// Copies `bytes` into `out` from `at` on.
pub(crate) fn write_bytes<const N: usize, const M: usize>(
    out: &mut [u8; N],
    at: usize,
    bytes: &[u8; M],
)
    requires
        at + M <= N,
    ensures
        final(out)@.take(at + M) == old(out)@.take(at as int) + bytes@,
        final(out)@.skip(at + M) == old(out)@.skip(at + M),
{
    let mut i: usize = 0;
    while i < M
        invariant
            i <= M,
            at + M <= N,
            out@.take(at + i) == old(out)@.take(at as int) + bytes@.take(i as int),
            out@.skip(at + M) == old(out)@.skip(at + M),
        decreases M - i,
    {
        let ghost before = out@;
        out[at + i] = bytes[i];
        proof {
            assert(out@.take(at + i + 1) =~= before.take(at + i).push(bytes@[i as int]));
            assert(bytes@.take(i + 1) =~= bytes@.take(i as int).push(bytes@[i as int]));
            assert(out@.skip(at + M) =~= before.skip(at + M));
        }
        i += 1;
    }
    assert(bytes@.take(M as int) =~= bytes@);
}

/// Reads the `n`-byte number at `offset` of `data`.
pub(crate) fn read_le<const N: usize>(data: &[u8; N], offset: usize, n: usize) -> (x: u64)
    requires
        n <= 8,
        offset + n <= N,
    ensures
        x == le_value(data@.subrange(offset as int, offset + n)),
{
    let mut x: u64 = 0;
    let mut i: usize = n;
    while i > 0
        invariant
            i <= n <= 8,
            offset + n <= N,
            x == le_value(data@.subrange(offset + i, offset + n)),
        decreases i,
    {
        i -= 1;
        let ghost tail = data@.subrange(offset + i, offset + n);
        proof {
            assert(tail.drop_first() =~= data@.subrange(offset + i + 1, offset + n));
            lemma_le_value_bound(tail);
            reveal_with_fuel(pow256, 9);
        }
        x = x * 256 + data[offset + i] as u64;
    }
    x
}

/// Copies `M` bytes out of `data`, from `offset` on.
pub(crate) fn read_bytes<const N: usize, const M: usize>(
    data: &[u8; N],
    offset: usize,
) -> (bytes: [u8; M])
    requires
        offset + M <= N,
    ensures
        bytes@ == data@.subrange(offset as int, offset + M),
{
    let mut bytes = [0u8; M];
    let mut i: usize = 0;
    while i < M
        invariant
            i <= M,
            offset + M <= N,
            forall|j: int| 0 <= j < i ==> bytes@[j] == data@[offset + j],
        decreases M - i,
    {
        bytes[i] = data[offset + i];
        i += 1;
    }
    assert(bytes@ =~= data@.subrange(offset as int, offset + M));
    bytes
}

/// Byte `i` of a number is its digit of weight 256 to the `i`.
pub proof fn law_bytes_are_the_digits(x: nat)
    ensures
        le_bytes(x, 1) == seq![(x % 0x100) as u8],
        le_bytes(x, 2) == seq![(x % 0x100) as u8, (x / 0x100 % 0x100) as u8],
        le_bytes(x, 4) == seq![
            (x % 0x100) as u8,
            (x / 0x100 % 0x100) as u8,
            (x / 0x1_0000 % 0x100) as u8,
            (x / 0x100_0000 % 0x100) as u8,
        ],
        le_bytes(x, 8) == seq![
            (x % 0x100) as u8,
            (x / 0x100 % 0x100) as u8,
            (x / 0x1_0000 % 0x100) as u8,
            (x / 0x100_0000 % 0x100) as u8,
            (x / 0x1_0000_0000 % 0x100) as u8,
            (x / 0x100_0000_0000 % 0x100) as u8,
            (x / 0x1_0000_0000_0000 % 0x100) as u8,
            (x / 0x100_0000_0000_0000 % 0x100) as u8,
        ],
{
    reveal_with_fuel(le_bytes, 9);
    assert(le_bytes(x, 1) =~= seq![(x % 0x100) as u8]);
    assert(le_bytes(x, 2) =~= seq![(x % 0x100) as u8, (x / 0x100 % 0x100) as u8]);
}

/// A number is the sum of its digits, each with its weight.
pub proof fn law_value_is_the_sum_of_the_digits(s: Seq<u8>)
    ensures
        s.len() == 1 ==> le_value(s) == s[0],
        s.len() == 2 ==> le_value(s) == s[0] + 0x100 * s[1],
        s.len() == 4 ==> le_value(s) == s[0] + 0x100 * s[1] + 0x1_0000 * s[2] + 0x100_0000 * s[3],
        s.len() == 8 ==> le_value(s) == s[0] + 0x100 * s[1] + 0x1_0000 * s[2] + 0x100_0000 * s[3]
            + 0x1_0000_0000 * s[4] + 0x100_0000_0000 * s[5] + 0x1_0000_0000_0000 * s[6]
            + 0x100_0000_0000_0000 * s[7],
{
    reveal_with_fuel(le_value, 9);
}

} // verus!
