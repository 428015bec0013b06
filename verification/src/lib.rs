//! Dictionary encoding of an interned-string ("symbol") column into a pair of
//! columnar-format pages: a dictionary page holding length-prefixed UTF-8
//! strings, and a data page holding nullability information and bit-packed
//! keys.  The local dictionary index of every entry is numerically identical
//! to the symbol's key in the source's global table, so readers never need a
//! translation step.

pub mod bits;
pub mod dict;
pub mod err;
pub mod laws;
pub mod levels;
pub mod pages;
pub mod stats;
pub mod table;
pub mod utf16;
