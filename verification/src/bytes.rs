//! Fixed-width integers in byte buffers.

use vstd::prelude::*;

verus! {

/// The number that a byte string denotes with the most significant byte first.
pub open spec fn be(s: Seq<u8>) -> nat
    decreases s.len(),
{
    if s.len() == 0 {
        0
    } else {
        be(s.drop_last()) * 256 + s.last() as nat
    }
}

/// The number that a byte string denotes with the least significant byte first.
pub open spec fn le(s: Seq<u8>) -> nat
    decreases s.len(),
{
    if s.len() == 0 {
        0
    } else {
        le(s.skip(1)) * 256 + s[0] as nat
    }
}

/// The big-endian number in the `n` bytes at `at`.
pub open spec fn be_at(data: Seq<u8>, at: int, n: int) -> nat {
    be(data.subrange(at, at + n))
}

/// The little-endian number in the `n` bytes at `at`.
pub open spec fn le_at(data: Seq<u8>, at: int, n: int) -> nat {
    le(data.subrange(at, at + n))
}

proof fn lemma_be_at_step(data: Seq<u8>, at: int, n: int)
    requires
        0 <= at,
        0 < n,
        at + n <= data.len(),
    ensures
        be_at(data, at, n) == be_at(data, at, n - 1) * 256 + data[at + n - 1] as nat,
{
    assert(data.subrange(at, at + n).drop_last() =~= data.subrange(at, at + n - 1));
}

proof fn lemma_le_at_step(data: Seq<u8>, at: int, n: int)
    requires
        0 <= at,
        0 < n,
        at + n <= data.len(),
    ensures
        le_at(data, at, n) == le_at(data, at + 1, n - 1) * 256 + data[at] as nat,
{
    assert(data.subrange(at, at + n).skip(1) =~= data.subrange(at + 1, at + n));
}

/// The big-endian 16-bit number at `at`.
pub fn be_u16(data: &[u8], at: usize) -> (r: u16)
    requires
        at + 2 <= data.len(),
    ensures
        r == be_at(data@, at as int, 2),
{
    proof {
        lemma_be_at_step(data@, at as int, 2);
        lemma_be_at_step(data@, at as int, 1);
        assert(data@.subrange(at as int, at as int) =~= Seq::<u8>::empty());
    }
    data[at] as u16 * 256 + data[at + 1] as u16
}

/// The big-endian 32-bit number at `at`.
pub fn be_u32(data: &[u8], at: usize) -> (r: u32)
    requires
        at + 4 <= data.len(),
    ensures
        r == be_at(data@, at as int, 4),
{
    proof {
        lemma_be_at_step(data@, at as int, 4);
        lemma_be_at_step(data@, at as int, 3);
        lemma_be_at_step(data@, at as int, 2);
        lemma_be_at_step(data@, at as int, 1);
        assert(data@.subrange(at as int, at as int) =~= Seq::<u8>::empty());
    }
    data[at] as u32 * 0x100_0000 + data[at + 1] as u32 * 0x1_0000 + data[at + 2] as u32 * 0x100
        + data[at + 3] as u32
}

/// The big-endian 64-bit number at `at`.
pub fn be_u64(data: &[u8], at: usize) -> (r: u64)
    requires
        at + 8 <= data.len(),
    ensures
        r == be_at(data@, at as int, 8),
{
    let high = be_u32(data, at);
    let low = be_u32(data, at + 4);
    proof {
        lemma_be_at_step(data@, at as int, 8);
        lemma_be_at_step(data@, at as int, 7);
        lemma_be_at_step(data@, at as int, 6);
        lemma_be_at_step(data@, at as int, 5);
        lemma_be_at_step(data@, at + 4, 4);
        lemma_be_at_step(data@, at + 4, 3);
        lemma_be_at_step(data@, at + 4, 2);
        lemma_be_at_step(data@, at + 4, 1);
        assert(data@.subrange(at + 4, at + 4) =~= Seq::<u8>::empty());
    }
    high as u64 * 0x1_0000_0000 + low as u64
}

/// The little-endian 16-bit number at `at`.
pub fn u16le(data: &[u8], at: usize) -> (r: u16)
    requires
        at + 2 <= data.len(),
    ensures
        r == le_at(data@, at as int, 2),
{
    proof {
        lemma_le_at_step(data@, at as int, 2);
        lemma_le_at_step(data@, at + 1, 1);
        assert(data@.subrange(at + 2, at + 2) =~= Seq::<u8>::empty());
    }
    data[at + 1] as u16 * 256 + data[at] as u16
}

/// The little-endian 32-bit number at `at`.
pub fn u32le(data: &[u8], at: usize) -> (r: u32)
    requires
        at + 4 <= data.len(),
    ensures
        r == le_at(data@, at as int, 4),
{
    proof {
        lemma_le_at_step(data@, at as int, 4);
        lemma_le_at_step(data@, at + 1, 3);
        lemma_le_at_step(data@, at + 2, 2);
        lemma_le_at_step(data@, at + 3, 1);
        assert(data@.subrange(at + 4, at + 4) =~= Seq::<u8>::empty());
    }
    data[at + 3] as u32 * 0x100_0000 + data[at + 2] as u32 * 0x1_0000 + data[at + 1] as u32 * 0x100
        + data[at] as u32
}

// ---- laws -----------------------------------------------------------------

/// The bytes of a big-endian number, most significant first, are what its digits
/// in base 256 are.
pub proof fn law_big_endian_puts_the_high_byte_first(data: Seq<u8>, at: int)
    requires
        0 <= at,
    ensures
        at + 2 <= data.len() ==> be_at(data, at, 2) == data[at] * 256 + data[at + 1],
        at + 4 <= data.len() ==> be_at(data, at, 4) == data[at] * 0x100_0000 + data[at + 1]
            * 0x1_0000 + data[at + 2] * 0x100 + data[at + 3],
        at + 8 <= data.len() ==> be_at(data, at, 8) == be_at(data, at, 4) * 0x1_0000_0000 + be_at(
            data,
            at + 4,
            4,
        ),
{
    if at + 2 <= data.len() {
        lemma_be_at_step(data, at, 2);
        lemma_be_at_step(data, at, 1);
        assert(data.subrange(at, at) =~= Seq::<u8>::empty());
    }
    if at + 4 <= data.len() {
        lemma_be_at_step(data, at, 4);
        lemma_be_at_step(data, at, 3);
    }
    if at + 8 <= data.len() {
        lemma_be_at_step(data, at, 8);
        lemma_be_at_step(data, at, 7);
        lemma_be_at_step(data, at, 6);
        lemma_be_at_step(data, at, 5);
        lemma_be_at_step(data, at + 4, 4);
        lemma_be_at_step(data, at + 4, 3);
        lemma_be_at_step(data, at + 4, 2);
        lemma_be_at_step(data, at + 4, 1);
        assert(data.subrange(at + 4, at + 4) =~= Seq::<u8>::empty());
    }
}

/// A little-endian number reads its bytes the other way round.
pub proof fn law_little_endian_puts_the_low_byte_first(data: Seq<u8>, at: int)
    requires
        0 <= at,
    ensures
        at + 2 <= data.len() ==> le_at(data, at, 2) == data[at + 1] * 256 + data[at],
        at + 4 <= data.len() ==> le_at(data, at, 4) == data[at + 3] * 0x100_0000 + data[at + 2]
            * 0x1_0000 + data[at + 1] * 0x100 + data[at],
{
    if at + 2 <= data.len() {
        lemma_le_at_step(data, at, 2);
        lemma_le_at_step(data, at + 1, 1);
        assert(data.subrange(at + 2, at + 2) =~= Seq::<u8>::empty());
    }
    if at + 4 <= data.len() {
        lemma_le_at_step(data, at, 4);
        lemma_le_at_step(data, at + 1, 3);
        lemma_le_at_step(data, at + 2, 2);
        lemma_le_at_step(data, at + 3, 1);
        assert(data.subrange(at + 4, at + 4) =~= Seq::<u8>::empty());
    }
}

} // verus!
