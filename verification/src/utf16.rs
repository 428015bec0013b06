//! UTF-16 to UTF-8 transcoding, writing directly into a growable byte buffer.

use vstd::prelude::*;

verus! {

/// A high (leading) surrogate code unit.
pub open spec fn is_high_surrogate(u: u16) -> bool {
    0xD800 <= u && u <= 0xDBFF
}

/// A low (trailing) surrogate code unit.
pub open spec fn is_low_surrogate(u: u16) -> bool {
    0xDC00 <= u && u <= 0xDFFF
}

/// Any surrogate code unit.
pub open spec fn is_surrogate(u: u16) -> bool {
    0xD800 <= u && u <= 0xDFFF
}

/// The Unicode scalar value denoted by a surrogate pair.
pub open spec fn combine_surrogates(h: u16, l: u16) -> int {
    0x10000 + (h - 0xD800) * 0x400 + (l - 0xDC00)
}

/// Whether a sequence of UTF-16 code units is well-formed: every surrogate
/// is part of a high-low pair.
pub open spec fn utf16_well_formed(s: Seq<u16>) -> bool
    decreases s.len(),
{
    if s.len() == 0 {
        true
    } else if !is_surrogate(s[0]) {
        utf16_well_formed(s.skip(1))
    } else if is_high_surrogate(s[0]) {
        s.len() >= 2 && is_low_surrogate(s[1]) && utf16_well_formed(s.skip(2))
    } else {
        false
    }
}

/// The UTF-8 encoding of one Unicode scalar value `v`, as the standard
/// 1- to 4-byte variable-length encoding.
pub open spec fn utf8_of_scalar(v: int) -> Seq<u8> {
    if v < 0x80 {
        seq![v as u8]
    } else if v < 0x800 {
        seq![(0xC0 + v / 0x40) as u8, (0x80 + v % 0x40) as u8]
    } else if v < 0x10000 {
        seq![
            (0xE0 + v / 0x1000) as u8,
            (0x80 + (v / 0x40) % 0x40) as u8,
            (0x80 + v % 0x40) as u8,
        ]
    } else {
        seq![
            (0xF0 + v / 0x40000) as u8,
            (0x80 + (v / 0x1000) % 0x40) as u8,
            (0x80 + (v / 0x40) % 0x40) as u8,
            (0x80 + v % 0x40) as u8,
        ]
    }
}

/// The UTF-8 transcoding of a UTF-16 sequence, scalar value by scalar value.
/// On an ill-formed sequence the transcoding stops at the first bad unit;
/// callers only rely on this function for well-formed input.
pub open spec fn utf8_of_utf16(s: Seq<u16>) -> Seq<u8>
    decreases s.len(),
{
    if s.len() == 0 {
        Seq::empty()
    } else if !is_surrogate(s[0]) {
        utf8_of_scalar(s[0] as int) + utf8_of_utf16(s.skip(1))
    } else if is_high_surrogate(s[0]) && s.len() >= 2 && is_low_surrogate(s[1]) {
        utf8_of_scalar(combine_surrogates(s[0], s[1])) + utf8_of_utf16(s.skip(2))
    } else {
        Seq::empty()
    }
}

/// The index of the code unit at which decoding an ill-formed sequence
/// stops: the first unpaired high surrogate, stray low surrogate, or
/// truncated pair.  Meaningful only for ill-formed input.
pub open spec fn first_bad_index(s: Seq<u16>) -> int
    decreases s.len(),
{
    if s.len() == 0 {
        0
    } else if !is_surrogate(s[0]) {
        1 + first_bad_index(s.skip(1))
    } else if is_high_surrogate(s[0]) && s.len() >= 2 && is_low_surrogate(s[1]) {
        2 + first_bad_index(s.skip(2))
    } else {
        0
    }
}

/// Witness that a sequence of code units was not valid UTF-16.
#[derive(Debug)]
pub struct Utf16DecodeError {
    /// Index of the offending code unit within the decoded sequence.
    pub position: usize,
}

/// Appends the UTF-8 bytes of one scalar value to `dest`.
fn push_utf8_scalar(dest: &mut Vec<u8>, v: u32)
    requires
        v < 0x110000,
        !(0xD800 <= v && v < 0xE000),
    ensures
        final(dest)@ == old(dest)@ + utf8_of_scalar(v as int),
{
    if v < 0x80 {
        dest.push(v as u8);
        assert(dest@ =~= old(dest)@ + utf8_of_scalar(v as int));
    } else if v < 0x800 {
        assert(v / 0x40 < 0x20 && v % 0x40 < 0x40) by (nonlinear_arith)
            requires v < 0x800;
        dest.push((0xC0 + v / 0x40) as u8);
        dest.push((0x80 + v % 0x40) as u8);
        assert(dest@ =~= old(dest)@ + utf8_of_scalar(v as int));
    } else if v < 0x10000 {
        assert(v / 0x1000 < 0x10 && (v / 0x40) % 0x40 < 0x40 && v % 0x40 < 0x40)
            by (nonlinear_arith)
            requires v < 0x10000;
        dest.push((0xE0 + v / 0x1000) as u8);
        dest.push((0x80 + (v / 0x40) % 0x40) as u8);
        dest.push((0x80 + v % 0x40) as u8);
        assert(dest@ =~= old(dest)@ + utf8_of_scalar(v as int));
    } else {
        assert(v / 0x40000 < 0x8 && (v / 0x1000) % 0x40 < 0x40 && (v / 0x40) % 0x40 < 0x40
            && v % 0x40 < 0x40) by (nonlinear_arith)
            requires v < 0x110000;
        dest.push((0xF0 + v / 0x40000) as u8);
        dest.push((0x80 + (v / 0x1000) % 0x40) as u8);
        dest.push((0x80 + (v / 0x40) % 0x40) as u8);
        dest.push((0x80 + v % 0x40) as u8);
        assert(dest@ =~= old(dest)@ + utf8_of_scalar(v as int));
    }
}

/// Decodes the UTF-16 code units of `src` one scalar value at a time,
/// combining surrogate pairs, and appends the UTF-8 encoding of each scalar
/// directly to `dest`.  Returns the number of bytes appended.  On ill-formed
/// input (an unpaired surrogate) it fails and leaves `dest` unchanged.
pub fn write_utf8_from_utf16(dest: &mut Vec<u8>, src: &[u16]) -> (r: Result<
    usize,
    Utf16DecodeError,
>)
    ensures
        match r {
            Ok(n) => {
                &&& utf16_well_formed(src@)
                &&& final(dest)@ == old(dest)@ + utf8_of_utf16(src@)
                &&& n == utf8_of_utf16(src@).len()
            },
            Err(e) => {
                &&& !utf16_well_formed(src@)
                &&& final(dest)@ == old(dest)@
                &&& e.position == first_bad_index(src@)
            },
        },
{
    let start: usize = dest.len();
    proof {
        assert(src@.skip(0) =~= src@);
        assert(dest@.skip(start as int) =~= Seq::<u8>::empty());
        assert(dest@.take(start as int) =~= dest@);
    }
    let mut i: usize = 0;
    while i < src.len()
        invariant
            i <= src@.len(),
            start == old(dest)@.len(),
            dest@.len() >= start,
            dest@.take(start as int) == old(dest)@,
            utf8_of_utf16(src@) == dest@.skip(start as int) + utf8_of_utf16(src@.skip(i as int)),
            utf16_well_formed(src@) == utf16_well_formed(src@.skip(i as int)),
            first_bad_index(src@) == i + first_bad_index(src@.skip(i as int)),
        decreases src@.len() - i,
    {
        let ghost pre = dest@;
        let ghost rest = src@.skip(i as int);
        let u: u16 = *vstd::slice::slice_index_get(src, i);
        assert(rest[0] == src@[i as int]);
        if u < 0xD800 || u >= 0xE000 {
            push_utf8_scalar(dest, u as u32);
            proof {
                assert(rest.skip(1) =~= src@.skip(i + 1));
                assert(dest@.skip(start as int) =~= pre.skip(start as int) + utf8_of_scalar(
                    u as int,
                ));
                assert(dest@.take(start as int) =~= pre.take(start as int));
            }
            i = i + 1;
        } else if u < 0xDC00 {
            // high surrogate: a low surrogate must follow
            if i + 1 >= src.len() {
                dest.truncate(start);
                assert(dest@ =~= old(dest)@);
                return Err(Utf16DecodeError { position: i });
            }
            let l: u16 = *vstd::slice::slice_index_get(src, i + 1);
            assert(rest[1] == src@[i + 1]);
            if !(0xDC00 <= l && l < 0xE000) {
                dest.truncate(start);
                assert(dest@ =~= old(dest)@);
                return Err(Utf16DecodeError { position: i });
            }
            let v: u32 = 0x10000 + ((u - 0xD800) as u32) * 0x400 + ((l - 0xDC00) as u32);
            assert(v == combine_surrogates(u, l));
            push_utf8_scalar(dest, v);
            proof {
                assert(rest.skip(2) =~= src@.skip(i + 2));
                assert(dest@.skip(start as int) =~= pre.skip(start as int) + utf8_of_scalar(
                    v as int,
                ));
                assert(dest@.take(start as int) =~= pre.take(start as int));
            }
            i = i + 2;
        } else {
            // stray low surrogate
            dest.truncate(start);
            assert(dest@ =~= old(dest)@);
            return Err(Utf16DecodeError { position: i });
        }
    }
    proof {
        assert(src@.skip(i as int) =~= Seq::<u16>::empty());
        assert(dest@ =~= dest@.take(start as int) + dest@.skip(start as int));
    }
    Ok(dest.len() - start)
}

} // verus!
