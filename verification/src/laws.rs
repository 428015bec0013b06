//! Properties of the encoding, stated and proved over the specification
//! functions that the executable functions' contracts use.

use vstd::prelude::*;
use crate::dict::{
    dict_bytes, end_value_of, entry_bytes, entry_offset, lemma_keys_le_max, local_keys_of,
    max_of_keys,
};
use crate::levels::explicit_null_count;
use crate::table::{key_utf8, le32_bytes};
use crate::utf16::{
    combine_surrogates, is_high_surrogate, is_low_surrogate, utf16_well_formed, utf8_of_scalar,
    utf8_of_utf16,
};

verus! {

/// The position of row `i`'s key within the key stream: the count of
/// non-null rows before it.
pub open spec fn key_position(vals: Seq<i32>, i: int) -> int {
    local_keys_of(vals.take(i)).len() as int
}

/// The dictionary buffer grows with its entry count.
pub proof fn lemma_dict_len_monotone(
    keys: Seq<u32>,
    a: int,
    b: int,
    offsets: Seq<u64>,
    chars: Seq<u8>,
)
    requires
        a <= b,
    ensures
        dict_bytes(keys, a, offsets, chars).len() <= dict_bytes(keys, b, offsets, chars).len(),
    decreases b - a,
{
    if a < b {
        lemma_dict_len_monotone(keys, a, b - 1, offsets, chars);
    }
}

/// Entry `k` stands in the dictionary buffer at its entry offset,
/// byte for byte.
pub proof fn lemma_dict_entry_slice(
    keys: Seq<u32>,
    end: int,
    offsets: Seq<u64>,
    chars: Seq<u8>,
    k: int,
)
    requires
        0 <= k < end,
    ensures
        ({
            let d = dict_bytes(keys, end, offsets, chars);
            let e = entry_bytes(keys, offsets, chars, k);
            let o = entry_offset(keys, offsets, chars, k);
            &&& o + e.len() <= d.len()
            &&& d.subrange(o, o + e.len() as int) == e
        }),
    decreases end,
{
    let d = dict_bytes(keys, end, offsets, chars);
    let e = entry_bytes(keys, offsets, chars, k);
    let o = entry_offset(keys, offsets, chars, k);
    let prev = dict_bytes(keys, end - 1, offsets, chars);
    if k == end - 1 {
        assert(d == prev + e);
        assert(o == prev.len());
        assert(d.subrange(o, o + e.len() as int) =~= e);
    } else {
        lemma_dict_entry_slice(keys, end - 1, offsets, chars, k);
        lemma_dict_len_monotone(keys, k + 1, end - 1, offsets, chars);
        assert(o + e.len() == dict_bytes(keys, k + 1, offsets, chars).len());
        assert(d.subrange(o, o + e.len() as int) =~= prev.subrange(o, o + e.len() as int));
    }
}

/// Truncation: the entry count is one past the largest used key, or 0 when
/// no key is used, and every used key lies below it.
pub proof fn lemma_end_value(keys: Seq<u32>)
    ensures
        keys.len() == 0 ==> end_value_of(keys) == 0,
        keys.len() > 0 ==> end_value_of(keys) == max_of_keys(keys) + 1,
        forall|j: int| 0 <= j < keys.len() ==> keys[j] < end_value_of(keys),
{
    lemma_keys_le_max(keys);
}

/// Truncation: the dictionary buffer reads nothing of the global table
/// beyond the offsets of the keys below the entry count; two offsets
/// tables that agree there give the same buffer, whatever their sizes.
pub proof fn lemma_truncation(
    keys: Seq<u32>,
    end: int,
    offsets1: Seq<u64>,
    offsets2: Seq<u64>,
    chars: Seq<u8>,
)
    requires
        forall|k: int| 0 <= k < end ==> offsets1[k] == offsets2[k],
    ensures
        dict_bytes(keys, end, offsets1, chars) == dict_bytes(keys, end, offsets2, chars),
    decreases end,
{
    if end > 0 {
        lemma_truncation(keys, end - 1, offsets1, offsets2, chars);
        assert(entry_bytes(keys, offsets1, chars, end - 1) == entry_bytes(
            keys,
            offsets2,
            chars,
            end - 1,
        ));
    }
}

/// Row `i`'s non-negative value appears in the key stream at the row's
/// non-null position, and is a used key below the entry count.
pub proof fn lemma_key_stream(vals: Seq<i32>, i: int)
    requires
        0 <= i < vals.len(),
        vals[i] >= 0,
    ensures
        ({
            let keys = local_keys_of(vals);
            let p = key_position(vals, i);
            &&& 0 <= p < keys.len()
            &&& keys[p] == vals[i] as u32
            &&& keys.contains(vals[i] as u32)
            &&& (vals[i] as u32 as int) < end_value_of(keys)
        }),
    decreases vals.len(),
{
    let keys = local_keys_of(vals);
    let p = key_position(vals, i);
    if i == vals.len() - 1 {
        assert(vals.take(i) =~= vals.drop_last());
    } else {
        lemma_key_stream(vals.drop_last(), i);
        assert(vals.drop_last().take(i) =~= vals.take(i));
        let prefix = local_keys_of(vals.drop_last());
        assert(prefix[p] == vals[i] as u32);
        if vals.last() >= 0 {
            assert(keys[p] == prefix[p]);
        }
    }
    assert(keys[p] == vals[i] as u32);
    lemma_keys_le_max(keys);
}

/// Identity: for a non-null column value `k`, dictionary entry `k` is the
/// length-prefixed UTF-8 transcoding of the global table's key-`k` string,
/// and the key stream carries `k` itself at the row's non-null position.
pub proof fn lemma_identity(vals: Seq<i32>, offsets: Seq<u64>, chars: Seq<u8>, i: int)
    requires
        0 <= i < vals.len(),
        vals[i] >= 0,
    ensures
        ({
            let keys = local_keys_of(vals);
            let k = vals[i] as u32;
            let d = dict_bytes(keys, end_value_of(keys), offsets, chars);
            let u = key_utf8(offsets, chars, k as int);
            let o = entry_offset(keys, offsets, chars, k as int);
            &&& keys[key_position(vals, i)] == k
            &&& keys.contains(k)
            &&& (k as int) < end_value_of(keys)
            &&& o + 4 + u.len() <= d.len()
            &&& d.subrange(o, o + 4) == le32_bytes(u.len() as int)
            &&& d.subrange(o + 4, o + 4 + u.len() as int) == u
        }),
{
    let keys = local_keys_of(vals);
    let k = vals[i] as u32;
    lemma_key_stream(vals, i);
    lemma_dict_entry_slice(keys, end_value_of(keys), offsets, chars, k as int);
    let d = dict_bytes(keys, end_value_of(keys), offsets, chars);
    let u = key_utf8(offsets, chars, k as int);
    let e = entry_bytes(keys, offsets, chars, k as int);
    let o = entry_offset(keys, offsets, chars, k as int);
    assert(e == le32_bytes(u.len() as int) + u);
    assert(d.subrange(o, o + 4) =~= e.subrange(0, 4));
    assert(e.subrange(0, 4) =~= le32_bytes(u.len() as int));
    assert(d.subrange(o + 4, o + 4 + u.len() as int) =~= e.subrange(4, 4 + u.len() as int));
    assert(e.subrange(4, 4 + u.len() as int) =~= u);
}

/// Placeholder: every key below the entry count that the column never
/// uses is encoded as an explicit empty string: a zero length prefix and
/// nothing else.
pub proof fn lemma_placeholder(
    keys: Seq<u32>,
    end: int,
    offsets: Seq<u64>,
    chars: Seq<u8>,
    j: int,
)
    requires
        0 <= j < end,
        !keys.contains(j as u32),
    ensures
        ({
            let d = dict_bytes(keys, end, offsets, chars);
            let o = entry_offset(keys, offsets, chars, j);
            &&& entry_bytes(keys, offsets, chars, j) == le32_bytes(0)
            &&& entry_bytes(keys, offsets, chars, j).len() == 4
            &&& o + 4 <= d.len()
            &&& d.subrange(o, o + 4) == le32_bytes(0)
        }),
{
    lemma_dict_entry_slice(keys, end, offsets, chars, j);
}

/// All-null column: with every value negative no key is used, the
/// dictionary buffer is empty, the largest key is 0, and every row counts
/// as null.
pub proof fn lemma_all_null(vals: Seq<i32>, offsets: Seq<u64>, chars: Seq<u8>)
    requires
        forall|i: int| 0 <= i < vals.len() ==> vals[i] < 0,
    ensures
        local_keys_of(vals) == Seq::<u32>::empty(),
        end_value_of(local_keys_of(vals)) == 0,
        max_of_keys(local_keys_of(vals)) == 0,
        dict_bytes(local_keys_of(vals), end_value_of(local_keys_of(vals)), offsets, chars)
            == Seq::<u8>::empty(),
        explicit_null_count(vals) == vals.len(),
    decreases vals.len(),
{
    if vals.len() > 0 {
        assert(forall|i: int|
            0 <= i < vals.drop_last().len() ==> #[trigger] vals.drop_last()[i] == vals[i]);
        lemma_all_null(vals.drop_last(), offsets, chars);
    }
}

/// Surrogate-pair fidelity: a high-low surrogate pair is well-formed
/// UTF-16 and transcodes to the 4-byte UTF-8 encoding of its combined
/// scalar value, which lies beyond the basic multilingual plane.
pub proof fn lemma_surrogate_pair(h: u16, l: u16)
    requires
        is_high_surrogate(h),
        is_low_surrogate(l),
    ensures
        utf16_well_formed(seq![h, l]),
        utf8_of_utf16(seq![h, l]) == utf8_of_scalar(combine_surrogates(h, l)),
        utf8_of_utf16(seq![h, l]).len() == 4,
        0x10000 <= combine_surrogates(h, l) < 0x110000,
{
    let s = seq![h, l];
    assert(s.len() == 2 && s[0] == h && s[1] == l);
    assert(s.skip(2) =~= Seq::<u16>::empty());
    assert(utf16_well_formed(s.skip(2)));
    assert(utf8_of_utf16(s) == utf8_of_scalar(combine_surrogates(h, l)) + utf8_of_utf16(
        s.skip(2),
    ));
    assert(utf8_of_utf16(s) =~= utf8_of_scalar(combine_surrogates(h, l)));
}

} // verus!
