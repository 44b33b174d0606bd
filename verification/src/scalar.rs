//! Unicode scalar values as a gap-free sequence.
//!
//! A `char` is any code point but the surrogates. Counting the scalar values
//! in ascending order gives each a rank; walking a range of characters means
//! walking a range of ranks.

use vstd::prelude::*;

verus! {

/// The code point of the first surrogate.
pub const SURROGATE_START: u32 = 0xD800;

/// The code point after the last surrogate.
pub const SURROGATE_END: u32 = 0xE000;

/// The number of surrogate code points.
pub const SURROGATE_COUNT: u32 = 0x800;

/// The number of scalar values, one more than the rank of `char::MAX`.
pub const SCALAR_COUNT: u32 = 0x10F800;

/// The last character there is.
pub const LAST_CHAR: char = '\u{10FFFF}';

/// Whether `v` is the code point of a `char`.
pub open spec fn is_scalar(v: int) -> bool {
    0 <= v < SURROGATE_START || SURROGATE_END <= v <= 0x10FFFF
}

/// The number of scalar values below the code point `v`.
pub open spec fn scalar_rank(v: int) -> int {
    if v < SURROGATE_START {
        v
    } else {
        v - SURROGATE_COUNT
    }
}

/// The code point of the scalar value with the given rank.
pub open spec fn rank_code(rank: int) -> int {
    if rank < SURROGATE_START {
        rank
    } else {
        rank + SURROGATE_COUNT
    }
}

/// The scalar value with the given rank.
pub open spec fn scalar_at(rank: int) -> char {
    rank_code(rank) as char
}

/// How many characters lie in the inclusive range from `lo` to `hi`.
pub open spec fn span_len(lo: char, hi: char) -> nat {
    if lo <= hi {
        (scalar_rank(hi as int) - scalar_rank(lo as int) + 1) as nat
    } else {
        0
    }
}

/// The characters from `lo` to `hi`, both included, in ascending order.
pub open spec fn span_chars(lo: char, hi: char) -> Seq<char> {
    Seq::new(span_len(lo, hi), |i: int| scalar_at(scalar_rank(lo as int) + i))
}

/// `char::from_u32` gives the character of a code point, and `None` for a
/// surrogate or a value above `char::MAX`.
pub assume_specification[ char::from_u32 ](i: u32) -> (r: Option<char>)
    ensures
        is_scalar(i as int) ==> r == Some(i as char),
        !is_scalar(i as int) ==> r is None,
;

/// The rank of a character.
pub fn rank_of(c: char) -> (r: u32)
    ensures
        r == scalar_rank(c as int),
        r < SCALAR_COUNT,
{
    let code: u32 = c as u32;
    if code < SURROGATE_START {
        code
    } else {
        code - SURROGATE_COUNT
    }
}

/// The character of a rank, `None` at or above `SCALAR_COUNT`.
pub fn char_of_rank(rank: u32) -> (r: Option<char>)
    ensures
        rank < SCALAR_COUNT ==> r == Some(scalar_at(rank as int)),
        rank >= SCALAR_COUNT ==> r is None,
{
    if rank >= SCALAR_COUNT {
        None
    } else if rank < SURROGATE_START {
        char::from_u32(rank)
    } else {
        char::from_u32(rank + SURROGATE_COUNT)
    }
}

/// Ranks and characters correspond one to one.
pub proof fn lemma_rank_round_trip(c: char)
    ensures
        is_scalar(c as int),
        0 <= scalar_rank(c as int) < SCALAR_COUNT,
        scalar_at(scalar_rank(c as int)) == c,
{
}

} // verus!
