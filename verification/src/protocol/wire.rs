//! Numbers and frames as bytes.

use vstd::prelude::*;

verus! {

/// A 16-bit number, most significant byte first.
#[verifier::opaque]
pub open spec fn be16(n: u16) -> Seq<u8> {
    seq![(n / 256) as u8, (n % 256) as u8]
}

/// A 32-bit number, most significant byte first.
#[verifier::opaque]
pub open spec fn be32(n: u32) -> Seq<u8> {
    seq![
        (n / 0x100_0000) as u8,
        (n / 0x1_0000 % 256) as u8,
        (n / 0x100 % 256) as u8,
        (n % 256) as u8,
    ]
}

/// The 16-bit number that two bytes hold.
pub open spec fn read16(s: Seq<u8>, at: int) -> u16 {
    (s[at] * 256 + s[at + 1]) as u16
}

/// The 32-bit number that four bytes hold.
pub open spec fn read32(s: Seq<u8>, at: int) -> u32 {
    (s[at] * 0x100_0000 + s[at + 1] * 0x1_0000 + s[at + 2] * 0x100 + s[at + 3]) as u32
}

/// A count in its 16-bit field: the low sixteen bits.
#[verifier::opaque]
pub open spec fn low16(n: nat) -> u16 {
    (n % 0x1_0000) as u16
}

/// A length in its 32-bit field: the low thirty-two bits.
#[verifier::opaque]
pub open spec fn low32(n: nat) -> u32 {
    (n % 0x1_0000_0000) as u32
}

/// A zero-terminated string.
pub open spec fn cstr(s: Seq<u8>) -> Seq<u8> {
    s.push(0)
}

/// A message: its type, its length with the length field counted in, its body.
pub open spec fn frame(kind: u8, body: Seq<u8>) -> Seq<u8> {
    seq![kind] + be32(low32(body.len() + 4)) + body
}

/// Appends a 16-bit number.
pub fn push16(out: &mut Vec<u8>, n: u16)
    ensures
        final(out)@ == old(out)@ + be16(n),
{
    proof {
        reveal(be16);
    }
    out.push((n / 256) as u8);
    out.push((n % 256) as u8);
    assert(out@ =~= old(out)@ + be16(n));
}

/// Appends a 32-bit number.
pub fn push32(out: &mut Vec<u8>, n: u32)
    ensures
        final(out)@ == old(out)@ + be32(n),
{
    proof {
        reveal(be32);
    }
    out.push((n / 0x100_0000) as u8);
    out.push((n / 0x1_0000 % 256) as u8);
    out.push((n / 0x100 % 256) as u8);
    out.push((n % 256) as u8);
    assert(out@ =~= old(out)@ + be32(n));
}

/// The low sixteen bits of a count.
pub fn count16(n: usize) -> (r: u16)
    ensures
        r == low16(n as nat),
{
    proof {
        reveal(low16);
    }
    (n % 0x1_0000) as u16
}

/// The low thirty-two bits of a length.
pub fn length32(n: usize) -> (r: u32)
    ensures
        r == low32(n as nat),
{
    proof {
        reveal(low32);
    }
    (n as u64 % 0x1_0000_0000) as u32
}

/// The low thirty-two bits of the length of a message with a body of `n` bytes.
fn frame_length(n: usize) -> (r: u32)
    ensures
        r == low32(n as nat + 4),
{
    proof {
        reveal(low32);
    }
    let low: u64 = n as u64 % 0x1_0000_0000;
    let ghost high = n as int / 0x1_0000_0000;
    assert(n == high * 0x1_0000_0000 + low);
    if low < 0xffff_fffc {
        assert((n + 4) % 0x1_0000_0000 == low + 4);
        (low + 4) as u32
    } else {
        assert(n + 4 == (high + 1) * 0x1_0000_0000 + (low - 0xffff_fffc));
        assert((n + 4) % 0x1_0000_0000 == low - 0xffff_fffc);
        (low - 0xffff_fffc) as u32
    }
}

/// Appends bytes.
pub fn push_bytes(out: &mut Vec<u8>, bytes: &[u8])
    ensures
        final(out)@ == old(out)@ + bytes@,
{
    let mut i: usize = 0;
    while i < bytes.len()
        invariant
            i <= bytes@.len(),
            out@ == old(out)@ + bytes@.take(i as int),
        decreases bytes@.len() - i,
    {
        out.push(bytes[i]);
        i = i + 1;
        assert(bytes@.take(i as int) =~= bytes@.take(i - 1).push(bytes@[i - 1]));
    }
    assert(bytes@.take(i as int) =~= bytes@);
}

/// Appends a zero-terminated string.
pub fn push_cstr(out: &mut Vec<u8>, s: &[u8])
    ensures
        final(out)@ == old(out)@ + cstr(s@),
{
    push_bytes(out, s);
    out.push(0);
    assert(out@ =~= old(out)@ + cstr(s@));
}

/// Appends a message.
pub fn push_frame(out: &mut Vec<u8>, kind: u8, body: &[u8])
    ensures
        final(out)@ == old(out)@ + frame(kind, body@),
{
    out.push(kind);
    push32(out, frame_length(body.len()));
    push_bytes(out, body);
    assert(out@ =~= old(out)@ + frame(kind, body@));
}

/// Reads the 16-bit number at `at`.
pub fn get16(s: &[u8], at: usize) -> (r: u16)
    requires
        at + 2 <= s@.len(),
    ensures
        r == read16(s@, at as int),
{
    s[at] as u16 * 256 + s[at + 1] as u16
}

/// Reads the 32-bit number at `at`.
pub fn get32(s: &[u8], at: usize) -> (r: u32)
    requires
        at + 4 <= s@.len(),
    ensures
        r == read32(s@, at as int),
{
    s[at] as u32 * 0x100_0000 + s[at + 1] as u32 * 0x1_0000 + s[at + 2] as u32 * 0x100 + s[at
        + 3] as u32
}

/// A number reads back as it was written.
#[verifier::rlimit(40)]
pub proof fn read_of_be(prefix: Seq<u8>, n: u16, m: u32, rest: Seq<u8>)
    ensures
        read16(prefix + be16(n) + rest, prefix.len() as int) == n,
        read32(prefix + be32(m) + rest, prefix.len() as int) == m,
{
    reveal(be16);
    reveal(be32);
    let a = prefix + be16(n) + rest;
    let k = prefix.len() as int;
    assert(a[k] == be16(n)[0] && a[k + 1] == be16(n)[1]);
    let b = prefix + be32(m) + rest;
    assert(b[k] == be32(m)[0] && b[k + 1] == be32(m)[1]);
    assert(b[k + 2] == be32(m)[2] && b[k + 3] == be32(m)[3]);
}

} // verus!
