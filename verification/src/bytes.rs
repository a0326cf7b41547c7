//! Byte strings: appending, and numbers in little-endian form.

use vstd::prelude::*;

verus! {

/// `n` as four bytes, least significant first.
pub open spec fn le32(n: nat) -> Seq<u8> {
    seq![
        (n % 256) as u8,
        (n / 256 % 256) as u8,
        (n / 65536 % 256) as u8,
        (n / 16777216 % 256) as u8,
    ]
}

/// The number that four bytes spell, least significant first.
pub open spec fn le32_value(b: Seq<u8>) -> nat {
    (b[0] as nat) + 256 * (b[1] as nat) + 65536 * (b[2] as nat) + 16777216 * (b[3] as nat)
}

/// `n` as four bytes, least significant first.
pub fn le32_bytes(n: u32) -> (out: [u8; 4])
    ensures
        out@ == le32(n as nat),
{
    let out: [u8; 4] = [
        (n % 256) as u8,
        (n / 256 % 256) as u8,
        (n / 65536 % 256) as u8,
        (n / 16777216 % 256) as u8,
    ];
    assert(out@ =~= le32(n as nat));
    out
}

/// `n` as eight bytes, least significant first.
pub open spec fn le64(n: nat) -> Seq<u8> {
    le32(n % 4294967296) + le32(n / 4294967296)
}

/// `n` as eight bytes, least significant first.
pub fn le64_bytes(n: u64) -> (out: [u8; 8])
    ensures
        out@ == le64(n as nat),
{
    let low = le32_bytes((n % 4294967296) as u32);
    let high = le32_bytes((n / 4294967296) as u32);
    let out: [u8; 8] = [low[0], low[1], low[2], low[3], high[0], high[1], high[2], high[3]];
    assert(out@ =~= le64(n as nat));
    out
}

/// Appends `src` to `out`.
pub fn append(out: &mut Vec<u8>, src: &[u8])
    ensures
        final(out)@ == old(out)@ + src@,
{
    let mut i: usize = 0;
    while i < src.len()
        invariant
            i <= src@.len(),
            out@ == old(out)@ + src@.take(i as int),
        decreases src@.len() - i,
    {
        out.push(src[i]);
        assert(src@.take(i + 1) =~= src@.take(i as int).push(src@[i as int]));
        i += 1;
    }
    assert(src@.take(i as int) =~= src@);
}

} // verus!
