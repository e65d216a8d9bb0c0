//! Little-endian 32-bit fields of disk blocks.
use vstd::prelude::*;

verus! {

/// The little-endian number in the four bytes of `s` from `off` on.
pub open spec fn u32_at(s: Seq<u8>, off: int) -> u32 {
    (s[off] + 256 * s[off + 1] + 65536 * s[off + 2] + 16777216 * s[off + 3]) as u32
}

/// The little-endian number in the two bytes of `s` from `off` on.
pub open spec fn u16_at(s: Seq<u8>, off: int) -> u16 {
    (s[off] + 256 * s[off + 1]) as u16
}

/// The little-endian number in the eight bytes of `s` from `off` on.
pub open spec fn u64_at(s: Seq<u8>, off: int) -> u64 {
    (u32_at(s, off) + 0x1_0000_0000 * u32_at(s, off + 4)) as u64
}

/// The four little-endian bytes of `v`.
pub open spec fn u32_bytes(v: u32) -> Seq<u8> {
    seq![(v % 256) as u8, ((v / 256) % 256) as u8, ((v / 65536) % 256) as u8, (v / 16777216) as u8]
}

/// Reads the field at `off`.
pub fn get_u32(b: &[u8], off: usize) -> (r: u32)
    requires
        off + 4 <= b@.len(),
    ensures
        r == u32_at(b@, off as int),
{
    (b[off] as u32) + (b[off + 1] as u32) * 256 + (b[off + 2] as u32) * 65536 + (b[off + 3] as u32)
        * 16777216
}

/// Reads the two-byte field at `off`.
pub fn get_u16(b: &[u8], off: usize) -> (r: u16)
    requires
        off + 2 <= b@.len(),
    ensures
        r == u16_at(b@, off as int),
{
    (b[off] as u16) + (b[off + 1] as u16) * 256
}

/// Reads the eight-byte field at `off`.
pub fn get_u64(b: &[u8], off: usize) -> (r: u64)
    requires
        off + 8 <= b@.len(),
    ensures
        r == u64_at(b@, off as int),
{
    let _len = b.len();
    (get_u32(b, off) as u64) + (get_u32(b, off + 4) as u64) * 0x1_0000_0000
}

/// Appends the four bytes of `v`.
pub fn put_u32(out: &mut Vec<u8>, v: u32)
    ensures
        final(out)@ == old(out)@ + u32_bytes(v),
{
    out.push((v % 256) as u8);
    out.push(((v / 256) % 256) as u8);
    out.push(((v / 65536) % 256) as u8);
    out.push((v / 16777216) as u8);
    proof {
        assert(final(out)@ =~= old(out)@ + u32_bytes(v));
    }
}

/// The bytes of `v` read back give `v`.
pub proof fn lemma_u32_round_trip(v: u32)
    ensures
        u32_at(u32_bytes(v), 0) == v,
{
    let s = u32_bytes(v);
    assert(s[0] + 256 * s[1] + 65536 * s[2] + 16777216 * s[3] == v) by (nonlinear_arith)
        requires
            s[0] == v % 256,
            s[1] == (v / 256) % 256,
            s[2] == (v / 65536) % 256,
            s[3] == v / 16777216,
            v < 0x1_0000_0000,
    ;
}

} // verus!
