//! Building the dictionary buffer: for every key from 0 up to the largest
//! used key, a 4-byte little-endian UTF-8 byte length followed by that many
//! UTF-8 bytes.  Keys the column never references are encoded as length 0,
//! which keeps each entry's local index numerically equal to its global key.

use vstd::prelude::*;
use std::collections::HashSet;
use crate::err::{kind_of, ErrKind, ParquetError};
use crate::stats::{max_folded, min_folded, BinaryMaxMin};
use crate::table::{
    key_layout_ok, key_units, key_utf8, le32_bytes, push_le32, read_le_u32, read_utf16_units,
    write_le32_at,
};
use crate::utf16::{utf16_well_formed, write_utf8_from_utf16};

verus! {

broadcast use vstd::std_specs::hash::group_hash_axioms;

/// The column's non-negative values, cast to unsigned, in row order.
pub open spec fn local_keys_of(vals: Seq<i32>) -> Seq<u32>
    decreases vals.len(),
{
    if vals.len() == 0 {
        Seq::empty()
    } else {
        let prefix = local_keys_of(vals.drop_last());
        if vals.last() >= 0 {
            prefix.push(vals.last() as u32)
        } else {
            prefix
        }
    }
}

/// The largest key in `keys`, or 0 if there is none.
pub open spec fn max_of_keys(keys: Seq<u32>) -> u32
    decreases keys.len(),
{
    if keys.len() == 0 {
        0
    } else {
        let m = max_of_keys(keys.drop_last());
        if keys.last() > m {
            keys.last()
        } else {
            m
        }
    }
}

/// One past the largest used key, or 0 when no key is used: the number of
/// entries the dictionary buffer holds.
pub open spec fn end_value_of(keys: Seq<u32>) -> int {
    if keys.len() == 0 {
        0
    } else {
        max_of_keys(keys) + 1
    }
}

/// The bytes of dictionary entry `k`: its length-prefixed UTF-8 transcoding
/// when the column uses key `k`, else an explicit empty string.
pub open spec fn entry_bytes(keys: Seq<u32>, offsets: Seq<u64>, chars: Seq<u8>, k: int) -> Seq<
    u8,
> {
    if keys.contains(k as u32) {
        le32_bytes(key_utf8(offsets, chars, k).len() as int) + key_utf8(offsets, chars, k)
    } else {
        le32_bytes(0)
    }
}

/// The dictionary buffer holding entries `0 .. end`, in ascending key order.
pub open spec fn dict_bytes(keys: Seq<u32>, end: int, offsets: Seq<u64>, chars: Seq<u8>) -> Seq<
    u8,
>
    decreases end,
{
    if end <= 0 {
        Seq::empty()
    } else {
        dict_bytes(keys, end - 1, offsets, chars) + entry_bytes(keys, offsets, chars, end - 1)
    }
}

/// The byte position of entry `k` within the dictionary buffer.
pub open spec fn entry_offset(keys: Seq<u32>, offsets: Seq<u64>, chars: Seq<u8>, k: int) -> int {
    dict_bytes(keys, k, offsets, chars).len() as int
}

/// Why encoding key `k` fails, if it does: a layout error when the record
/// lies out of bounds or its UTF-8 length overflows the 4-byte prefix, a
/// decode error when its code units are not valid UTF-16.
pub open spec fn key_err(offsets: Seq<u64>, chars: Seq<u8>, k: int) -> Option<ErrKind> {
    if !key_layout_ok(offsets, chars, k) {
        Option::Some(ErrKind::Layout)
    } else if !utf16_well_formed(key_units(offsets, chars, k)) {
        Option::Some(ErrKind::Utf16)
    } else if key_utf8(offsets, chars, k).len() > u32::MAX {
        Option::Some(ErrKind::Layout)
    } else {
        Option::None
    }
}

/// The first failure met while encoding entries `0 .. end` in ascending
/// order, or `None` when every used key below `end` encodes.
pub open spec fn dict_err(keys: Seq<u32>, end: int, offsets: Seq<u64>, chars: Seq<u8>) -> Option<
    ErrKind,
>
    decreases end,
{
    if end <= 0 {
        Option::None
    } else if dict_err(keys, end - 1, offsets, chars) is Some {
        dict_err(keys, end - 1, offsets, chars)
    } else if keys.contains((end - 1) as u32) {
        key_err(offsets, chars, end - 1)
    } else {
        Option::None
    }
}

/// The running minimum after folding, in ascending key order, the UTF-8
/// string of every used key below `end` into `init`.
pub open spec fn stats_min_folded(
    init: Option<Seq<u8>>,
    keys: Seq<u32>,
    end: int,
    offsets: Seq<u64>,
    chars: Seq<u8>,
) -> Option<Seq<u8>>
    decreases end,
{
    if end <= 0 {
        init
    } else {
        let prev = stats_min_folded(init, keys, end - 1, offsets, chars);
        if keys.contains((end - 1) as u32) {
            min_folded(prev, key_utf8(offsets, chars, end - 1))
        } else {
            prev
        }
    }
}

/// The running maximum, folded as `stats_min_folded` is.
pub open spec fn stats_max_folded(
    init: Option<Seq<u8>>,
    keys: Seq<u32>,
    end: int,
    offsets: Seq<u64>,
    chars: Seq<u8>,
) -> Option<Seq<u8>>
    decreases end,
{
    if end <= 0 {
        init
    } else {
        let prev = stats_max_folded(init, keys, end - 1, offsets, chars);
        if keys.contains((end - 1) as u32) {
            max_folded(prev, key_utf8(offsets, chars, end - 1))
        } else {
            prev
        }
    }
}

/// A failure at some bound persists at every larger bound.
pub proof fn lemma_dict_err_extends(
    keys: Seq<u32>,
    m: int,
    end: int,
    offsets: Seq<u64>,
    chars: Seq<u8>,
)
    requires
        0 <= m <= end,
        dict_err(keys, m, offsets, chars) is Some,
    ensures
        dict_err(keys, end, offsets, chars) == dict_err(keys, m, offsets, chars),
    decreases end - m,
{
    if m < end {
        lemma_dict_err_extends(keys, m, end - 1, offsets, chars);
    }
}

/// Membership in one more element of a prefix.
proof fn lemma_take_succ_contains(s: Seq<u32>, i: int, x: u32)
    requires
        0 <= i < s.len(),
    ensures
        s.take(i + 1).contains(x) <==> (s.take(i).contains(x) || s[i] == x),
{
    assert(s.take(i + 1) =~= s.take(i).push(s[i]));
    let p = s.take(i);
    if p.contains(x) {
        let j = choose|j: int| 0 <= j < p.len() && p[j] == x;
        assert(s.take(i + 1)[j] == x);
    }
    if s[i] == x {
        assert(s.take(i + 1)[i] == x);
    }
    let t = s.take(i + 1);
    if t.contains(x) {
        let j = choose|j: int| 0 <= j < t.len() && t[j] == x;
        if j < i {
            assert(s.take(i)[j] == x);
        }
    }
}

/// Encodes the dictionary buffer for the used keys: entries `0 .. end_value`
/// in ascending order, the used ones transcoded from the global table, the
/// unused ones as explicit empty strings, feeding every transcoded string to
/// the statistics accumulator.  The two-pass technique reserves a zero
/// length prefix, transcodes in place, then patches the prefix, so no
/// temporary string is allocated.
pub fn encode_dict_buffer(
    local_keys: &[u32],
    offsets: &[u64],
    chars: &[u8],
    stats: &mut BinaryMaxMin,
) -> (r: Result<Vec<u8>, ParquetError>)
    requires
        forall|j: int| 0 <= j < local_keys@.len() ==> local_keys@[j] <= 0x7FFFFFFF,
    ensures
        match r {
            Ok(dict) => {
                &&& dict_err(local_keys@, end_value_of(local_keys@), offsets@, chars@) is None
                &&& dict@ == dict_bytes(local_keys@, end_value_of(local_keys@), offsets@, chars@)
                &&& final(stats).min_view() == stats_min_folded(
                    old(stats).min_view(),
                    local_keys@,
                    end_value_of(local_keys@),
                    offsets@,
                    chars@,
                )
                &&& final(stats).max_view() == stats_max_folded(
                    old(stats).max_view(),
                    local_keys@,
                    end_value_of(local_keys@),
                    offsets@,
                    chars@,
                )
            },
            Err(e) => dict_err(local_keys@, end_value_of(local_keys@), offsets@, chars@)
                == Option::Some(kind_of(e)),
        },
{
    let klen: usize = local_keys.len();

    // Collect the set of distinct used keys and one past the largest.
    let mut end_value: u32 = 0;
    let mut values_set: HashSet<u32> = HashSet::new();
    let mut i: usize = 0;
    while i < klen
        invariant
            i <= klen,
            klen == local_keys@.len(),
            forall|j: int| 0 <= j < local_keys@.len() ==> local_keys@[j] <= 0x7FFFFFFF,
            end_value as int == end_value_of(local_keys@.take(i as int)),
            end_value <= 0x80000000,
            forall|x: u32| values_set@.contains(x) <==> local_keys@.take(i as int).contains(x),
            vstd::std_specs::hash::obeys_key_model::<u32>(),
        decreases klen - i,
    {
        let ghost prefix = local_keys@.take(i as int);
        let k: u32 = *vstd::slice::slice_index_get(local_keys, i);
        values_set.insert(k);
        if k + 1 > end_value {
            end_value = k + 1;
        }
        proof {
            let t = local_keys@.take(i + 1);
            assert(t.drop_last() =~= prefix);
            assert(t.last() == k);
            assert(t.len() == i + 1);
            assert(max_of_keys(t) == if k > max_of_keys(prefix) {
                k
            } else {
                max_of_keys(prefix)
            });
            if prefix.len() == 0 {
                assert(max_of_keys(prefix) == 0);
            }
            assert forall|x: u32| values_set@.contains(x) <==> local_keys@.take(
                i + 1,
            ).contains(x) by {
                lemma_take_succ_contains(local_keys@, i as int, x);
            }
        }
        i = i + 1;
    }
    proof {
        assert(local_keys@.take(klen as int) =~= local_keys@);
    }

    // Pre-size the buffer: a non-binding estimate of 4 bytes per unused key
    // and 10 per used key (4-byte prefix plus a 6-byte average payload).
    let dense_count: u64 = values_set.len() as u64;
    let dense_capped: u64 = if dense_count > end_value as u64 {
        end_value as u64
    } else {
        dense_count
    };
    let estimate: u64 = (end_value as u64) * 4 + dense_capped * 6;
    let capacity: usize = if estimate <= usize::MAX as u64 {
        estimate as usize
    } else {
        0
    };
    let mut dict_buffer: Vec<u8> = Vec::with_capacity(capacity);

    // Walk each key up to `end_value` and encode it into the buffer.
    let mut key: u32 = 0;
    while key < end_value
        invariant
            key <= end_value,
            end_value as int == end_value_of(local_keys@),
            dict_buffer@ == dict_bytes(local_keys@, key as int, offsets@, chars@),
            dict_err(local_keys@, key as int, offsets@, chars@) is None,
            stats.min_view() == stats_min_folded(
                old(stats).min_view(),
                local_keys@,
                key as int,
                offsets@,
                chars@,
            ),
            stats.max_view() == stats_max_folded(
                old(stats).max_view(),
                local_keys@,
                key as int,
                offsets@,
                chars@,
            ),
            forall|x: u32| values_set@.contains(x) <==> local_keys@.contains(x),
            vstd::std_specs::hash::obeys_key_model::<u32>(),
        decreases end_value - key,
    {
        let ghost prebuf = dict_buffer@;
        let ghost gkeys = local_keys@;

        // Always reserve a zero length, overwritten later with the actual
        // length, to avoid double-buffering through a temporary string.
        let key_index: usize = dict_buffer.len();
        push_le32(&mut dict_buffer, 0);

        if values_set.contains(&key) {
            let kus: usize = key as usize;
            if kus >= offsets.len() {
                proof {
                    assert(key_err(offsets@, chars@, key as int) == Option::Some(
                        ErrKind::Layout,
                    ));
                    lemma_dict_err_extends(
                        gkeys,
                        key as int + 1,
                        end_value as int,
                        offsets@,
                        chars@,
                    );
                }
                return Err(ParquetError::Layout { msg: crate::err::fmt_missing_key(key) });
            }
            let off: u64 = *vstd::slice::slice_index_get(offsets, kus);
            let clen_u64: u64 = chars.len() as u64;
            if clen_u64 < 4 || off > clen_u64 - 4 {
                proof {
                    assert(key_err(offsets@, chars@, key as int) == Option::Some(
                        ErrKind::Layout,
                    ));
                    lemma_dict_err_extends(
                        gkeys,
                        key as int + 1,
                        end_value as int,
                        offsets@,
                        chars@,
                    );
                }
                return Err(ParquetError::Layout { msg: crate::err::fmt_out_of_bounds(off) });
            }
            let pos: usize = off as usize;
            let n_units: u32 = read_le_u32(chars, pos);
            let rem: u64 = clen_u64 - (off + 4);
            if (n_units as u64) * 2 > rem {
                proof {
                    assert(key_err(offsets@, chars@, key as int) == Option::Some(
                        ErrKind::Layout,
                    ));
                    lemma_dict_err_extends(
                        gkeys,
                        key as int + 1,
                        end_value as int,
                        offsets@,
                        chars@,
                    );
                }
                return Err(ParquetError::Layout { msg: crate::err::fmt_out_of_bounds(off) });
            }
            let units: Vec<u16> = read_utf16_units(chars, pos + 4, n_units as usize);
            assert(units@ == key_units(offsets@, chars@, key as int));
            match write_utf8_from_utf16(&mut dict_buffer, units.as_slice()) {
                Err(_) => {
                    proof {
                        assert(key_err(offsets@, chars@, key as int) == Option::Some(
                            ErrKind::Utf16,
                        ));
                        lemma_dict_err_extends(
                            gkeys,
                            key as int + 1,
                            end_value as int,
                            offsets@,
                            chars@,
                        );
                    }
                    return Err(ParquetError::Utf16Decode);
                },
                Ok(utf8_len) => {
                    if utf8_len as u64 > u32::MAX as u64 {
                        proof {
                            assert(key_err(offsets@, chars@, key as int) == Option::Some(
                                ErrKind::Layout,
                            ));
                            lemma_dict_err_extends(
                                gkeys,
                                key as int + 1,
                                end_value as int,
                                offsets@,
                                chars@,
                            );
                        }
                        return Err(ParquetError::Layout {
                            msg: crate::err::fmt_out_of_bounds(off),
                        });
                    }
                    // Go back and overwrite the zero length with the actual
                    // UTF-8 byte length just written.
                    write_le32_at(&mut dict_buffer, key_index, utf8_len as u32);
                    proof {
                        let u = key_utf8(offsets@, chars@, key as int);
                        assert(dict_buffer@ =~= prebuf + le32_bytes(u.len() as int) + u);
                        assert(dict_buffer@ =~= dict_bytes(
                            gkeys,
                            key as int + 1,
                            offsets@,
                            chars@,
                        ));
                    }
                    // Update the running min/max over the written UTF-8.
                    let newlen: usize = dict_buffer.len();
                    assert(newlen == key_index + 4 + utf8_len);
                    let written = vstd::slice::slice_subrange(
                        dict_buffer.as_slice(),
                        key_index + 4,
                        key_index + 4 + utf8_len,
                    );
                    assert(written@ =~= key_utf8(offsets@, chars@, key as int));
                    stats.update(written);
                },
            }
        } else {
            proof {
                assert(dict_buffer@ =~= dict_bytes(gkeys, key as int + 1, offsets@, chars@));
            }
        }
        key = key + 1;
    }
    Ok(dict_buffer)
}

/// Scans the column values, separating non-negative keys from negative null
/// sentinels, then encodes the dictionary buffer for them.  Returns the
/// buffer, the keys in row order, and the largest key used (0 if none).
pub fn encode_symbols_dict(
    column_vals: &[i32],
    offsets: &[u64],
    chars: &[u8],
    stats: &mut BinaryMaxMin,
) -> (r: Result<(Vec<u8>, Vec<u32>, u32), ParquetError>)
    ensures
        ({
            let keys = local_keys_of(column_vals@);
            let end = end_value_of(keys);
            match r {
                Ok(out) => {
                    &&& out.1@ == keys
                    &&& out.2 == max_of_keys(keys)
                    &&& dict_err(keys, end, offsets@, chars@) is None
                    &&& out.0@ == dict_bytes(keys, end, offsets@, chars@)
                    &&& final(stats).min_view() == stats_min_folded(
                        old(stats).min_view(),
                        keys,
                        end,
                        offsets@,
                        chars@,
                    )
                    &&& final(stats).max_view() == stats_max_folded(
                        old(stats).max_view(),
                        keys,
                        end,
                        offsets@,
                        chars@,
                    )
                },
                Err(e) => dict_err(keys, end, offsets@, chars@) == Option::Some(kind_of(e)),
            }
        }),
{
    let n: usize = column_vals.len();
    let mut local_keys: Vec<u32> = Vec::with_capacity(n);
    let mut max_key: u32 = 0;
    let mut i: usize = 0;
    while i < n
        invariant
            i <= n,
            n == column_vals@.len(),
            local_keys@ == local_keys_of(column_vals@.take(i as int)),
            max_key == max_of_keys(local_keys@),
            forall|j: int| 0 <= j < local_keys@.len() ==> local_keys@[j] <= 0x7FFFFFFF,
        decreases n - i,
    {
        let ghost prefix = column_vals@.take(i as int);
        let v: i32 = *vstd::slice::slice_index_get(column_vals, i);
        proof {
            assert(column_vals@.take(i + 1).drop_last() =~= prefix);
            assert(column_vals@.take(i + 1).last() == v);
        }
        if v >= 0 {
            let k: u32 = v as u32;
            let ghost prekeys = local_keys@;
            local_keys.push(k);
            proof {
                assert(local_keys@.drop_last() =~= prekeys);
                assert(local_keys@.last() == k);
            }
            if k > max_key {
                max_key = k;
            }
        }
        i = i + 1;
    }
    proof {
        assert(column_vals@.take(n as int) =~= column_vals@);
    }

    let dict_buffer = match encode_dict_buffer(local_keys.as_slice(), offsets, chars, stats) {
        Ok(buf) => buf,
        Err(e) => {
            return Err(e);
        },
    };
    Ok((dict_buffer, local_keys, max_key))
}

/// Every key in a sequence is at most the sequence's maximum.
pub proof fn lemma_keys_le_max(keys: Seq<u32>)
    ensures
        forall|j: int| 0 <= j < keys.len() ==> keys[j] <= max_of_keys(keys),
    decreases keys.len(),
{
    if keys.len() > 0 {
        lemma_keys_le_max(keys.drop_last());
        assert forall|j: int| 0 <= j < keys.len() implies keys[j] <= max_of_keys(keys) by {
            if j < keys.len() - 1 {
                assert(keys.drop_last()[j] == keys[j]);
            }
        }
    }
}

/// Local keys come from non-negative 32-bit signed values, so none passes
/// the signed maximum.
pub proof fn lemma_local_keys_bounded(vals: Seq<i32>)
    ensures
        forall|j: int|
            0 <= j < local_keys_of(vals).len() ==> local_keys_of(vals)[j] <= 0x7FFFFFFF,
    decreases vals.len(),
{
    if vals.len() > 0 {
        lemma_local_keys_bounded(vals.drop_last());
        let ks = local_keys_of(vals);
        let prefix = local_keys_of(vals.drop_last());
        assert forall|j: int| 0 <= j < ks.len() implies ks[j] <= 0x7FFFFFFF by {
            if vals.last() >= 0 && j < ks.len() - 1 {
                assert(ks[j] == prefix[j]);
            }
        }
    }
}

/// A maximum over bounded keys is itself bounded.
pub proof fn lemma_max_of_keys_bounded(keys: Seq<u32>, bound: u32)
    requires
        forall|j: int| 0 <= j < keys.len() ==> keys[j] <= bound,
    ensures
        max_of_keys(keys) <= bound,
    decreases keys.len(),
{
    if keys.len() > 0 {
        assert(forall|j: int|
            0 <= j < keys.drop_last().len() ==> #[trigger] keys.drop_last()[j] == keys[j]);
        lemma_max_of_keys_bounded(keys.drop_last(), bound);
    }
}

} // verus!
