//! Little-endian words, stated byte by byte.

use vstd::prelude::*;

use crate::bytes::{le16, le32, le64, signed32};

verus! {

/// A word is the sum of its bytes, the least significant one first.
pub proof fn law_words_are_byte_sums(s: Seq<u8>, at: int)
    ensures
        le16(s, at) == s[at] + s[at + 1] * 0x100,
        le32(s, at) == s[at] + s[at + 1] * 0x100 + s[at + 2] * 0x1_0000 + s[at + 3] * 0x100_0000,
        le64(s, at) == s[at] + s[at + 1] * 0x100 + s[at + 2] * 0x1_0000 + s[at + 3] * 0x100_0000
            + s[at + 4] * 0x1_0000_0000 + s[at + 5] * 0x100_0000_0000 + s[at + 6]
            * 0x1_0000_0000_0000 + s[at + 7] * 0x100_0000_0000_0000,
{
}

/// A word with its highest bit set stands for itself less two to the thirty-second, any other for
/// itself.
pub proof fn law_signed_word(value: u32)
    ensures
        signed32(value) == value || signed32(value) == value - 0x1_0000_0000,
        signed32(value) < 0 <==> value >= 0x8000_0000,
{
}

} // verus!
