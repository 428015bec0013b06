//! The global symbol table: an `offsets` array of byte positions into a
//! `chars` buffer, which holds one length-prefixed UTF-16 record per symbol.
//! A record at byte position `p` is a 4-byte little-endian code-unit count
//! `n` followed by `n` 16-bit little-endian code units.

use vstd::prelude::*;
use crate::utf16::utf8_of_utf16;

verus! {

/// The unsigned 32-bit value stored little-endian at byte position `pos`.
pub open spec fn le32_at(chars: Seq<u8>, pos: int) -> int {
    chars[pos] + 0x100 * chars[pos + 1] + 0x10000 * chars[pos + 2] + 0x1000000 * chars[pos + 3]
}

/// The little-endian byte rendering of a 32-bit value, as written for an
/// entry's length prefix.
pub open spec fn le32_bytes(n: int) -> Seq<u8> {
    seq![
        (n % 0x100) as u8,
        ((n / 0x100) % 0x100) as u8,
        ((n / 0x10000) % 0x100) as u8,
        ((n / 0x1000000) % 0x100) as u8,
    ]
}

/// The `n` 16-bit little-endian code units stored at byte position `pos`.
/// The table's code units are platform UTF-16 written by a little-endian
/// source system, so composing byte pairs little-endian reads the same
/// values, without reinterpreting the buffer in place.
pub open spec fn units_at(chars: Seq<u8>, pos: int, n: int) -> Seq<u16> {
    Seq::new(n as nat, |j: int| (chars[pos + 2 * j] + 0x100 * chars[pos + 2 * j + 1]) as u16)
}

/// The code-unit count declared by key `k`'s record.
pub open spec fn record_unit_count(offsets: Seq<u64>, chars: Seq<u8>, k: int) -> int {
    le32_at(chars, offsets[k] as int)
}

/// Whether key `k` has an offsets entry and its record, both the 4-byte
/// count field and the declared code-unit payload, lies within `chars`.
pub open spec fn key_layout_ok(offsets: Seq<u64>, chars: Seq<u8>, k: int) -> bool {
    &&& 0 <= k < offsets.len()
    &&& offsets[k] + 4 <= chars.len()
    &&& offsets[k] + 4 + 2 * record_unit_count(offsets, chars, k) <= chars.len()
}

/// The UTF-16 code units of key `k`'s record.
pub open spec fn key_units(offsets: Seq<u64>, chars: Seq<u8>, k: int) -> Seq<u16> {
    units_at(chars, offsets[k] + 4, record_unit_count(offsets, chars, k))
}

/// The UTF-8 transcoding of key `k`'s record.
pub open spec fn key_utf8(offsets: Seq<u64>, chars: Seq<u8>, k: int) -> Seq<u8> {
    utf8_of_utf16(key_units(offsets, chars, k))
}

/// Reads the unsigned 32-bit little-endian value at `pos`.
pub fn read_le_u32(chars: &[u8], pos: usize) -> (r: u32)
    requires
        pos + 4 <= chars@.len(),
    ensures
        r == le32_at(chars@, pos as int),
{
    let clen: usize = chars.len();
    assert(pos + 4 <= clen);
    let b0 = *vstd::slice::slice_index_get(chars, pos) as u32;
    let b1 = *vstd::slice::slice_index_get(chars, pos + 1) as u32;
    let b2 = *vstd::slice::slice_index_get(chars, pos + 2) as u32;
    let b3 = *vstd::slice::slice_index_get(chars, pos + 3) as u32;
    b0 + 0x100 * b1 + 0x10000 * b2 + 0x1000000 * b3
}

/// Reads `n` 16-bit little-endian code units starting at `pos`.
pub fn read_utf16_units(chars: &[u8], pos: usize, n: usize) -> (r: Vec<u16>)
    requires
        pos + 2 * n <= chars@.len(),
    ensures
        r@ == units_at(chars@, pos as int, n as int),
{
    let clen: usize = chars.len();
    let mut units: Vec<u16> = Vec::new();
    let mut j: usize = 0;
    while j < n
        invariant
            j <= n,
            pos + 2 * n <= chars@.len(),
            chars@.len() == clen,
            units@.len() == j,
            forall|l: int|
                0 <= l < j ==> units@[l] == (chars@[pos + 2 * l] + 0x100 * chars@[pos + 2 * l
                    + 1]) as u16,
        decreases n - j,
    {
        let lo = *vstd::slice::slice_index_get(chars, pos + 2 * j) as u16;
        let hi = *vstd::slice::slice_index_get(chars, pos + 2 * j + 1) as u16;
        units.push(lo + 0x100 * hi);
        j = j + 1;
    }
    proof {
        assert(units@ =~= units_at(chars@, pos as int, n as int));
    }
    units
}

/// Appends the 4-byte little-endian rendering of `n` to `buf`.
pub fn push_le32(buf: &mut Vec<u8>, n: u32)
    ensures
        final(buf)@ == old(buf)@ + le32_bytes(n as int),
{
    buf.push((n % 0x100) as u8);
    buf.push(((n / 0x100) % 0x100) as u8);
    buf.push(((n / 0x10000) % 0x100) as u8);
    buf.push(((n / 0x1000000) % 0x100) as u8);
    assert(buf@ =~= old(buf)@ + le32_bytes(n as int));
}

/// Overwrites the 4 bytes at `at` with the little-endian rendering of `n`.
pub(crate) fn write_le32_at(buf: &mut Vec<u8>, at: usize, n: u32)
    requires
        at + 4 <= old(buf)@.len(),
    ensures
        final(buf)@ == old(buf)@.take(at as int) + le32_bytes(n as int) + old(buf)@.skip(
            at as int + 4,
        ),
        final(buf)@.len() == old(buf)@.len(),
{
    let blen: usize = buf.len();
    assert(at + 4 <= blen);
    buf[at] = (n % 0x100) as u8;
    buf[at + 1] = ((n / 0x100) % 0x100) as u8;
    buf[at + 2] = ((n / 0x10000) % 0x100) as u8;
    buf[at + 3] = ((n / 0x1000000) % 0x100) as u8;
    assert(buf@ =~= old(buf)@.take(at as int) + le32_bytes(n as int) + old(buf)@.skip(
        at as int + 4,
    ));
}

} // verus!
