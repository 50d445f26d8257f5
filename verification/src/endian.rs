//! Little-endian 32-bit integers inside byte sequences.

use vstd::prelude::*;

verus! {

/// The 32-bit little-endian integer stored in `bytes[at..at + 4]`.
#[verifier::opaque]
pub open spec fn le32(bytes: Seq<u8>, at: int) -> int
    recommends
        0 <= at,
        at + 4 <= bytes.len(),
{
    bytes[at] as int + 0x100 * (bytes[at + 1] as int) + 0x1_0000 * (bytes[at + 2] as int)
        + 0x100_0000 * (bytes[at + 3] as int)
}

/// The four bytes that store `value` in little-endian order.
#[verifier::opaque]
pub open spec fn le32_bytes(value: int) -> Seq<u8>
    recommends
        0 <= value < 0x1_0000_0000,
{
    seq![
        (value % 0x100) as u8,
        (value / 0x100 % 0x100) as u8,
        (value / 0x1_0000 % 0x100) as u8,
        (value / 0x100_0000 % 0x100) as u8,
    ]
}

/// `bytes` with the four bytes at `at` replaced by `value` in little-endian
/// order.
pub open spec fn with_le32(bytes: Seq<u8>, at: int, value: int) -> Seq<u8>
    recommends
        0 <= at,
        at + 4 <= bytes.len(),
{
    bytes.subrange(0, at) + le32_bytes(value) + bytes.subrange(at + 4, bytes.len() as int)
}

/// A run of `n` zero bytes.
pub open spec fn zeros(n: int) -> Seq<u8> {
    Seq::new(if n < 0 { 0 } else { n as nat }, |i: int| 0u8)
}

/// A little-endian integer takes four bytes.
pub proof fn lemma_le32_bytes_len(value: int)
    ensures
        le32_bytes(value).len() == 4,
{
    reveal(le32_bytes);
}

/// Reading back what `le32_bytes` stored gives the value again, wherever
/// the four bytes stand inside a longer sequence.
pub proof fn lemma_le32_of_bytes(bytes: Seq<u8>, at: int, value: int)
    requires
        0 <= value < 0x1_0000_0000,
        0 <= at,
        at + 4 <= bytes.len(),
        bytes.subrange(at, at + 4) == le32_bytes(value),
    ensures
        le32(bytes, at) == value,
{
    reveal(le32);
    reveal(le32_bytes);
    let four = bytes.subrange(at, at + 4);
    assert(four[0] == bytes[at] && four[1] == bytes[at + 1] && four[2] == bytes[at + 2] && four[3]
        == bytes[at + 3]);
    let stored = le32_bytes(value);
    assert(stored[0] == (value % 0x100) as u8);
    assert(stored[1] == (value / 0x100 % 0x100) as u8);
    assert(stored[2] == (value / 0x1_0000 % 0x100) as u8);
    assert(stored[3] == (value / 0x100_0000 % 0x100) as u8);
}

/// Replacing four bytes keeps the length, puts the value in their place,
/// and leaves every part of the sequence that lies beside them as it was.
pub proof fn lemma_with_le32(bytes: Seq<u8>, at: int, value: int, from: int, to: int)
    requires
        0 <= at,
        at + 4 <= bytes.len(),
        0 <= from <= to <= bytes.len(),
        to <= at || at + 4 <= from,
    ensures
        with_le32(bytes, at, value).len() == bytes.len(),
        with_le32(bytes, at, value).subrange(at, at + 4) == le32_bytes(value),
        with_le32(bytes, at, value).subrange(from, to) == bytes.subrange(from, to),
{
    lemma_le32_bytes_len(value);
    assert(with_le32(bytes, at, value).subrange(at, at + 4) =~= le32_bytes(value));
    assert(with_le32(bytes, at, value).subrange(from, to) =~= bytes.subrange(from, to));
}

/// A little-endian integer depends only on its own four bytes.
pub proof fn lemma_le32_same_bytes(a: Seq<u8>, b: Seq<u8>, at: int)
    requires
        0 <= at,
        at + 4 <= a.len(),
        at + 4 <= b.len(),
        forall|i: int| at <= i < at + 4 ==> a[i] == b[i],
    ensures
        le32(a, at) == le32(b, at),
{
    reveal(le32);
}

/// Reads the little-endian integer at `at`.
pub fn read_le32(bytes: &[u8], at: usize) -> (value: u32)
    requires
        at + 4 <= bytes@.len(),
    ensures
        value == le32(bytes@, at as int),
{
    proof {
        reveal(le32);
    }
    let b0: u32 = bytes[at] as u32;
    let b1: u32 = bytes[at + 1] as u32;
    let b2: u32 = bytes[at + 2] as u32;
    let b3: u32 = bytes[at + 3] as u32;
    b0 + 0x100 * b1 + 0x1_0000 * b2 + 0x100_0000 * b3
}

/// Appends `value` in little-endian order.
pub fn push_le32(out: &mut Vec<u8>, value: u32)
    ensures
        final(out)@ == old(out)@ + le32_bytes(value as int),
        final(out)@.len() == old(out)@.len() + 4,
{
    let ghost before = out@;
    out.push((value % 0x100) as u8);
    out.push((value / 0x100 % 0x100) as u8);
    out.push((value / 0x1_0000 % 0x100) as u8);
    out.push((value / 0x100_0000 % 0x100) as u8);
    proof {
        reveal(le32_bytes);
    }
    assert(out@ =~= before + le32_bytes(value as int));
}

/// Appends `n` zero bytes.
pub fn push_zeros(out: &mut Vec<u8>, n: usize)
    ensures
        final(out)@ == old(out)@ + zeros(n as int),
{
    let ghost before = out@;
    let mut done: usize = 0;
    while done < n
        invariant
            done <= n,
            out@ == before + zeros(done as int),
        decreases n - done,
    {
        out.push(0u8);
        done = done + 1;
        assert(out@ =~= before + zeros(done as int));
    }
}

} // verus!
