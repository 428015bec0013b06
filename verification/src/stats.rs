//! Running min/max statistics over byte strings, ordered lexicographically
//! by unsigned byte value.

use vstd::prelude::*;

verus! {

/// Strict lexicographic order on byte strings: a proper prefix precedes its
/// extensions, and otherwise the first differing byte decides.
pub open spec fn lex_lt(a: Seq<u8>, b: Seq<u8>) -> bool
    decreases a.len(),
{
    if b.len() == 0 {
        false
    } else if a.len() == 0 {
        true
    } else if a[0] < b[0] {
        true
    } else if a[0] > b[0] {
        false
    } else {
        lex_lt(a.skip(1), b.skip(1))
    }
}

/// The bytes an optional owned buffer holds, as a mathematical value.
pub open spec fn opt_bytes_view(o: Option<Vec<u8>>) -> Option<Seq<u8>> {
    match o {
        Option::None => Option::None,
        Option::Some(v) => Option::Some(v@),
    }
}

/// The minimum after folding `s` into `cur`: `s` replaces `cur` only when
/// `cur` is absent or strictly greater.
pub open spec fn min_folded(cur: Option<Seq<u8>>, s: Seq<u8>) -> Option<Seq<u8>> {
    match cur {
        Option::None => Option::Some(s),
        Option::Some(m) => if lex_lt(s, m) {
            Option::Some(s)
        } else {
            Option::Some(m)
        },
    }
}

/// The maximum after folding `s` into `cur`.
pub open spec fn max_folded(cur: Option<Seq<u8>>, s: Seq<u8>) -> Option<Seq<u8>> {
    match cur {
        Option::None => Option::Some(s),
        Option::Some(m) => if lex_lt(m, s) {
            Option::Some(s)
        } else {
            Option::Some(m)
        },
    }
}

/// Compares two byte strings lexicographically.
fn bytes_lt(a: &[u8], b: &[u8]) -> (r: bool)
    ensures
        r == lex_lt(a@, b@),
{
    let alen: usize = a.len();
    let blen: usize = b.len();
    let mut i: usize = 0;
    proof {
        assert(a@.skip(0) =~= a@);
        assert(b@.skip(0) =~= b@);
    }
    while i < alen && i < blen
        invariant
            alen == a@.len(),
            blen == b@.len(),
            i <= alen,
            i <= blen,
            lex_lt(a@, b@) == lex_lt(a@.skip(i as int), b@.skip(i as int)),
        decreases alen - i,
    {
        let ghost ra = a@.skip(i as int);
        let ghost rb = b@.skip(i as int);
        let x = *vstd::slice::slice_index_get(a, i);
        let y = *vstd::slice::slice_index_get(b, i);
        assert(ra[0] == a@[i as int] && rb[0] == b@[i as int]);
        if x < y {
            return true;
        }
        if x > y {
            return false;
        }
        proof {
            assert(ra.skip(1) =~= a@.skip(i + 1));
            assert(rb.skip(1) =~= b@.skip(i + 1));
        }
        i = i + 1;
    }
    proof {
        if i >= alen {
            assert(a@.skip(i as int) =~= Seq::<u8>::empty());
        } else {
            assert(b@.skip(i as int) =~= Seq::<u8>::empty());
        }
    }
    i >= alen && i < blen
}

/// Accumulates the minimum and maximum over the byte strings it is fed.
pub struct BinaryMaxMin {
    /// The least string seen so far, if any.
    pub min: Option<Vec<u8>>,
    /// The greatest string seen so far, if any.
    pub max: Option<Vec<u8>>,
}

impl BinaryMaxMin {
    /// The accumulated minimum, as a mathematical value.
    pub open spec fn min_view(&self) -> Option<Seq<u8>> {
        match self.min {
            Option::None => Option::None,
            Option::Some(ref v) => Option::Some(v@),
        }
    }

    /// The accumulated maximum, as a mathematical value.
    pub open spec fn max_view(&self) -> Option<Seq<u8>> {
        match self.max {
            Option::None => Option::None,
            Option::Some(ref v) => Option::Some(v@),
        }
    }

    /// A fresh accumulator that has seen no string.
    pub fn new() -> (r: BinaryMaxMin)
        ensures
            r.min_view() is None,
            r.max_view() is None,
    {
        BinaryMaxMin { min: Option::None, max: Option::None }
    }

    /// Folds one byte string into the running minimum and maximum.
    pub fn update(&mut self, s: &[u8])
        ensures
            final(self).min_view() == min_folded(old(self).min_view(), s@),
            final(self).max_view() == max_folded(old(self).max_view(), s@),
    {
        let replace_min = match self.min {
            Option::None => true,
            Option::Some(ref m) => bytes_lt(s, m.as_slice()),
        };
        if replace_min {
            self.min = Option::Some(vstd::slice::slice_to_vec(s));
        }
        let replace_max = match self.max {
            Option::None => true,
            Option::Some(ref m) => bytes_lt(m.as_slice(), s),
        };
        if replace_max {
            self.max = Option::Some(vstd::slice::slice_to_vec(s));
        }
    }
}

} // verus!
