use vstd::prelude::*;

verus! {

/// The 16-bit integer whose little-endian bytes are `b0, b1`.
pub open spec fn u16_le(b0: u8, b1: u8) -> u16 {
    (b0 as u16) | ((b1 as u16) << 8)
}

/// The 32-bit integer whose little-endian bytes are `b0 .. b3`.
pub open spec fn u32_le(b0: u8, b1: u8, b2: u8, b3: u8) -> u32 {
    (b0 as u32) | ((b1 as u32) << 8) | ((b2 as u32) << 16) | ((b3 as u32) << 24)
}

/// The 16-bit integer read little-endian from `s` at `at`.
pub open spec fn u16_le_at(s: Seq<u8>, at: int) -> u16 {
    u16_le(s[at], s[at + 1])
}

/// The 32-bit integer read little-endian from `s` at `at`.
pub open spec fn u32_le_at(s: Seq<u8>, at: int) -> u32 {
    u32_le(s[at], s[at + 1], s[at + 2], s[at + 3])
}

/// The two little-endian bytes of `v`.
pub open spec fn u16_le_bytes(v: u16) -> Seq<u8> {
    seq![(v & 0xff) as u8, ((v >> 8) & 0xff) as u8]
}

/// The four little-endian bytes of `v`.
pub open spec fn u32_le_bytes(v: u32) -> Seq<u8> {
    seq![(v & 0xff) as u8, ((v >> 8) & 0xff) as u8, ((v >> 16) & 0xff) as u8, ((v >> 24) & 0xff) as u8]
}

/// Reading back the bytes of a 16-bit integer gives the integer.
pub proof fn lemma_u16_le_round_trip(v: u16)
    ensures
        u16_le_at(u16_le_bytes(v), 0) == v,
{
    let b0 = (v & 0xff) as u8;
    let b1 = ((v >> 8) & 0xff) as u8;
    assert((b0 as u16) | ((b1 as u16) << 8) == v) by (bit_vector)
        requires b0 == (v & 0xff) as u8, b1 == ((v >> 8) & 0xff) as u8;
}

/// Reading back the bytes of a 32-bit integer gives the integer.
pub proof fn lemma_u32_le_round_trip(v: u32)
    ensures
        u32_le_at(u32_le_bytes(v), 0) == v,
{
    let b0 = (v & 0xff) as u8;
    let b1 = ((v >> 8) & 0xff) as u8;
    let b2 = ((v >> 16) & 0xff) as u8;
    let b3 = ((v >> 24) & 0xff) as u8;
    assert((b0 as u32) | ((b1 as u32) << 8) | ((b2 as u32) << 16) | ((b3 as u32) << 24) == v)
        by (bit_vector)
        requires
            b0 == (v & 0xff) as u8,
            b1 == ((v >> 8) & 0xff) as u8,
            b2 == ((v >> 16) & 0xff) as u8,
            b3 == ((v >> 24) & 0xff) as u8,
    ;
}

/// Writing out a 32-bit integer read from four bytes gives those bytes.
pub proof fn lemma_u32_bytes_round_trip(s: Seq<u8>, at: int)
    requires
        0 <= at,
        at + 4 <= s.len(),
    ensures
        u32_le_bytes(u32_le_at(s, at)) =~= s.subrange(at, at + 4),
{
    let (b0, b1, b2, b3) = (s[at], s[at + 1], s[at + 2], s[at + 3]);
    let v = u32_le(b0, b1, b2, b3);
    assert((v & 0xff) as u8 == b0 && ((v >> 8) & 0xff) as u8 == b1 && ((v >> 16) & 0xff) as u8
        == b2 && ((v >> 24) & 0xff) as u8 == b3) by (bit_vector)
        requires
            v == (b0 as u32) | ((b1 as u32) << 8) | ((b2 as u32) << 16) | ((b3 as u32) << 24),
    ;
}

/// Reads a little-endian 16-bit integer at `at`.
pub fn read_u16_le(s: &[u8], at: usize) -> (r: u16)
    requires
        at + 2 <= s@.len(),
    ensures
        r == u16_le_at(s@, at as int),
{
    (s[at] as u16) | ((s[at + 1] as u16) << 8)
}

/// Reads a little-endian 32-bit integer at `at`.
pub fn read_u32_le(s: &[u8], at: usize) -> (r: u32)
    requires
        at + 4 <= s@.len(),
    ensures
        r == u32_le_at(s@, at as int),
{
    (s[at] as u32) | ((s[at + 1] as u32) << 8) | ((s[at + 2] as u32) << 16) | ((s[at + 3] as u32)
        << 24)
}

/// Appends the little-endian bytes of `v`.
pub fn push_u16_le(out: &mut Vec<u8>, v: u16)
    ensures
        final(out)@ == old(out)@ + u16_le_bytes(v),
{
    out.push((v & 0xff) as u8);
    out.push(((v >> 8) & 0xff) as u8);
    assert(final(out)@ =~= old(out)@ + u16_le_bytes(v));
}

/// Appends the little-endian bytes of `v`.
pub fn push_u32_le(out: &mut Vec<u8>, v: u32)
    ensures
        final(out)@ == old(out)@ + u32_le_bytes(v),
{
    out.push((v & 0xff) as u8);
    out.push(((v >> 8) & 0xff) as u8);
    out.push(((v >> 16) & 0xff) as u8);
    out.push(((v >> 24) & 0xff) as u8);
    assert(final(out)@ =~= old(out)@ + u32_le_bytes(v));
}

/// Overwrites the two bytes at `at` with the little-endian bytes of `v`.
pub fn write_u16_le_at(out: &mut Vec<u8>, at: usize, v: u16)
    requires
        at + 2 <= old(out)@.len(),
    ensures
        final(out)@ == old(out)@.take(at as int) + u16_le_bytes(v) + old(out)@.skip(at + 2),
{
    let len = out.len();
    assert(at + 2 <= len);
    out.set(at, (v & 0xff) as u8);
    out.set(at + 1, ((v >> 8) & 0xff) as u8);
    assert(final(out)@ =~= old(out)@.take(at as int) + u16_le_bytes(v) + old(out)@.skip(at + 2));
}

/// Overwrites the four bytes at `at` with the little-endian bytes of `v`.
pub fn write_u32_le_at(out: &mut Vec<u8>, at: usize, v: u32)
    requires
        at + 4 <= old(out)@.len(),
    ensures
        final(out)@ == old(out)@.take(at as int) + u32_le_bytes(v) + old(out)@.skip(at + 4),
{
    let len = out.len();
    assert(at + 4 <= len);
    out.set(at, (v & 0xff) as u8);
    out.set(at + 1, ((v >> 8) & 0xff) as u8);
    out.set(at + 2, ((v >> 16) & 0xff) as u8);
    out.set(at + 3, ((v >> 24) & 0xff) as u8);
    assert(final(out)@ =~= old(out)@.take(at as int) + u32_le_bytes(v) + old(out)@.skip(at + 4));
}

} // verus!
