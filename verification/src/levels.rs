//! Definition levels: one boolean per row saying whether the row holds a
//! value.  The first `column_top` rows are implicit leading nulls that are
//! not materialized in the column values; after them, a negative column
//! value denotes an explicit null.

use vstd::prelude::*;

verus! {

/// How many of the column's values are null sentinels (negative).
pub open spec fn explicit_null_count(vals: Seq<i32>) -> int
    decreases vals.len(),
{
    if vals.len() == 0 {
        0
    } else {
        explicit_null_count(vals.drop_last()) + if vals.last() < 0 {
            1int
        } else {
            0int
        }
    }
}

/// The definition levels of a column: `top` leading nulls, then one level
/// per value, true exactly when the value is non-negative.
pub open spec fn def_levels_of(top: int, vals: Seq<i32>) -> Seq<bool> {
    Seq::new((top + vals.len()) as nat, |i: int| i >= top && vals[i - top] >= 0)
}

/// Builds the definition levels and counts the nulls: the `column_top`
/// implicit leading nulls plus every negative column value.
pub fn build_def_levels(column_values: &[i32], column_top: usize) -> (r: (Vec<bool>, usize))
    requires
        column_top + column_values@.len() <= usize::MAX,
    ensures
        r.0@ == def_levels_of(column_top as int, column_values@),
        r.0@.len() == column_top + column_values@.len(),
        r.1 == column_top + explicit_null_count(column_values@),
        explicit_null_count(column_values@) <= column_values@.len(),
{
    let n: usize = column_values.len();
    let mut levels: Vec<bool> = Vec::with_capacity(column_top + n);
    let mut null_count: usize = column_top;
    let mut i: usize = 0;
    while i < column_top
        invariant
            i <= column_top,
            levels@.len() == i,
            forall|j: int| 0 <= j < i ==> levels@[j] == false,
        decreases column_top - i,
    {
        levels.push(false);
        i = i + 1;
    }
    let mut v: usize = 0;
    while v < n
        invariant
            v <= n,
            n == column_values@.len(),
            column_top + n <= usize::MAX,
            levels@.len() == column_top + v,
            forall|j: int| 0 <= j < column_top ==> levels@[j] == false,
            forall|j: int|
                column_top <= j < column_top + v ==> levels@[j] == (column_values@[j
                    - column_top] >= 0),
            null_count == column_top + explicit_null_count(column_values@.take(v as int)),
            explicit_null_count(column_values@.take(v as int)) <= v,
        decreases n - v,
    {
        let ghost prefix = column_values@.take(v as int);
        let val: i32 = *vstd::slice::slice_index_get(column_values, v);
        proof {
            assert(column_values@.take(v + 1).drop_last() =~= prefix);
            assert(column_values@.take(v + 1).last() == val);
        }
        if val >= 0 {
            levels.push(true);
        } else {
            levels.push(false);
            null_count = null_count + 1;
        }
        v = v + 1;
    }
    proof {
        assert(column_values@.take(n as int) =~= column_values@);
        assert(levels@ =~= def_levels_of(column_top as int, column_values@));
    }
    (levels, null_count)
}

} // verus!
