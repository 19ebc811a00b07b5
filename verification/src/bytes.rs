//! Little-endian reinterpretation of raw byte ranges as fixed-width
//! element buffers: the pure core of the tensor decoder.

use vstd::prelude::*;

verus! {

/// The 16-bit value stored little-endian as `b0, b1`.
pub open spec fn le16(b0: u8, b1: u8) -> u16 {
    (b0 + b1 * 0x100) as u16
}

/// The 32-bit value stored little-endian as `b0, b1, b2, b3`.
pub open spec fn le32(b0: u8, b1: u8, b2: u8, b3: u8) -> u32 {
    (b0 + b1 * 0x100 + b2 * 0x10000 + b3 * 0x1000000) as u32
}

/// The 64-bit value stored little-endian in the 8 bytes of `b`.
pub open spec fn le64(b: Seq<u8>) -> u64
    recommends
        b.len() == 8,
{
    (b[0] + b[1] * 0x100 + b[2] * 0x10000 + b[3] * 0x1000000 + b[4] * 0x100000000 + b[5]
        * 0x10000000000 + b[6] * 0x1000000000000 + b[7] * 0x100000000000000) as u64
}

/// `b` reinterpreted as consecutive little-endian 16-bit words.
pub open spec fn words16(b: Seq<u8>) -> Seq<u16> {
    Seq::new((b.len() / 2) as nat, |i: int| le16(b[2 * i], b[2 * i + 1]))
}

/// `b` reinterpreted as consecutive little-endian 32-bit groups.
pub open spec fn words32(b: Seq<u8>) -> Seq<u32> {
    Seq::new((b.len() / 4) as nat, |i: int| le32(b[4 * i], b[4 * i + 1], b[4 * i + 2], b[4 * i + 3]))
}

/// Reads the unsigned 64-bit little-endian integer in the first 8 bytes.
pub fn read_u64_le(b: &[u8]) -> (r: u64)
    requires
        b@.len() >= 8,
    ensures
        r == le64(b@.subrange(0, 8)),
{
    let r: u64 = (b[0] as u64) + (b[1] as u64) * 0x100 + (b[2] as u64) * 0x10000 + (b[3] as u64)
        * 0x1000000 + (b[4] as u64) * 0x100000000 + (b[5] as u64) * 0x10000000000 + (b[6] as u64)
        * 0x1000000000000 + (b[7] as u64) * 0x100000000000000;
    proof {
        assert(b@.subrange(0, 8) =~= seq![b@[0], b@[1], b@[2], b@[3], b@[4], b@[5], b@[6], b@[7]]);
    }
    r
}

/// Decodes a byte range of even length into its little-endian 16-bit
/// words, one word per byte pair, in order.
pub fn decode_u16_le(b: &[u8]) -> (r: Vec<u16>)
    requires
        b@.len() % 2 == 0,
    ensures
        r@ == words16(b@),
{
    let n: usize = b.len() / 2;
    let mut out: Vec<u16> = Vec::new();
    let mut i: usize = 0;
    while i < n
        invariant
            i <= n,
            n == b@.len() / 2,
            b@.len() % 2 == 0,
            b@.len() <= usize::MAX,
            out@.len() == i,
            forall|j: int| 0 <= j < i ==> out@[j] == le16(b@[2 * j], b@[2 * j + 1]),
        decreases n - i,
    {
        let w: u16 = (b[2 * i] as u16) + (b[2 * i + 1] as u16) * 0x100;
        out.push(w);
        i = i + 1;
    }
    proof {
        assert(out@ =~= words16(b@));
    }
    out
}

/// Decodes a byte range whose length is a multiple of 4 into its
/// little-endian 32-bit groups, one group per 4 bytes, in order.
pub fn decode_u32_le(b: &[u8]) -> (r: Vec<u32>)
    requires
        b@.len() % 4 == 0,
    ensures
        r@ == words32(b@),
{
    let n: usize = b.len() / 4;
    let mut out: Vec<u32> = Vec::new();
    let mut i: usize = 0;
    while i < n
        invariant
            i <= n,
            n == b@.len() / 4,
            b@.len() % 4 == 0,
            b@.len() <= usize::MAX,
            out@.len() == i,
            forall|j: int| 0 <= j < i ==> out@[j] == le32(
                b@[4 * j],
                b@[4 * j + 1],
                b@[4 * j + 2],
                b@[4 * j + 3],
            ),
        decreases n - i,
    {
        let w: u32 = (b[4 * i] as u32) + (b[4 * i + 1] as u32) * 0x100 + (b[4 * i + 2] as u32)
            * 0x10000 + (b[4 * i + 3] as u32) * 0x1000000;
        out.push(w);
        i = i + 1;
    }
    proof {
        assert(out@ =~= words32(b@));
    }
    out
}

} // verus!
