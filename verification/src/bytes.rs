//! Little-endian reads and writes over byte sequences.

use vstd::prelude::*;

verus! {

/// The `u16` stored little-endian at `at`.
pub open spec fn le16(s: Seq<u8>, at: int) -> u16 {
    (s[at] + s[at + 1] * 0x100) as u16
}

/// The `u32` stored little-endian at `at`.
pub open spec fn le32(s: Seq<u8>, at: int) -> u32 {
    (s[at] + s[at + 1] * 0x100 + s[at + 2] * 0x1_0000 + s[at + 3] * 0x100_0000) as u32
}

/// The `u64` stored little-endian at `at`.
pub open spec fn le64(s: Seq<u8>, at: int) -> u64 {
    (le32(s, at) + le32(s, at + 4) * 0x1_0000_0000) as u64
}

/// Whether `[at, at + size)` lies inside a sequence of `len` bytes.
pub open spec fn fits(len: nat, at: int, size: int) -> bool {
    0 <= at && 0 <= size && at + size <= len
}

/// The two bytes that encode `value` little-endian.
pub open spec fn bytes16(value: u16) -> Seq<u8> {
    seq![(value % 0x100) as u8, (value / 0x100) as u8]
}

/// The four bytes that encode `value` little-endian.
pub open spec fn bytes32(value: u32) -> Seq<u8> {
    seq![
        (value % 0x100) as u8,
        (value / 0x100 % 0x100) as u8,
        (value / 0x1_0000 % 0x100) as u8,
        (value / 0x100_0000) as u8,
    ]
}

/// The eight bytes that encode `value` little-endian.
pub open spec fn bytes64(value: u64) -> Seq<u8> {
    bytes32((value % 0x1_0000_0000) as u32) + bytes32((value / 0x1_0000_0000) as u32)
}

/// Reading back the two bytes written for a value gives that value.
pub proof fn lemma_bytes16_roundtrip(value: u16)
    ensures
        bytes16(value).len() == 2,
        le16(bytes16(value), 0) == value,
{
}

/// Reading back the four bytes written for a value gives that value.
#[verifier::rlimit(30)]
pub proof fn lemma_bytes32_roundtrip(value: u32)
    ensures
        bytes32(value).len() == 4,
        le32(bytes32(value), 0) == value,
{
    let a = value as int;
    let b = a / 0x100;
    let c = b / 0x100;
    assert(a / 0x1_0000 == c);
    assert(a / 0x100_0000 == c / 0x100);
    assert(a == b * 0x100 + a % 0x100);
    assert(b == c * 0x100 + b % 0x100);
    assert(c == c / 0x100 * 0x100 + c % 0x100);
    let s = bytes32(value);
    assert(s[0] == a % 0x100);
    assert(s[1] == b % 0x100);
    assert(s[2] == c % 0x100);
    assert(s[3] == c / 0x100);
}

/// Reading back the eight bytes written for a value gives that value.
pub proof fn lemma_bytes64_roundtrip(value: u64)
    ensures
        bytes64(value).len() == 8,
        le64(bytes64(value), 0) == value,
{
    let low = (value % 0x1_0000_0000) as u32;
    let high = (value / 0x1_0000_0000) as u32;
    lemma_bytes32_roundtrip(low);
    lemma_bytes32_roundtrip(high);
    let s = bytes64(value);
    assert(le32(s, 0) == le32(bytes32(low), 0));
    assert(le32(s, 4) == le32(bytes32(high), 0));
}

/// Reads the `u16` at `offset` when both bytes are present.
pub fn read_u16_at(data: &[u8], offset: usize) -> (r: Option<u16>)
    ensures
        r == (if fits(data@.len(), offset as int, 2) {
            Some(le16(data@, offset as int))
        } else {
            None
        }),
{
    if data.len() < 2 || offset > data.len() - 2 {
        return None;
    }
    Some(data[offset] as u16 + data[offset + 1] as u16 * 0x100)
}

/// Reads the `u32` at `offset` when all four bytes are present.
pub fn read_u32_at(data: &[u8], offset: usize) -> (r: Option<u32>)
    ensures
        r == (if fits(data@.len(), offset as int, 4) {
            Some(le32(data@, offset as int))
        } else {
            None
        }),
{
    if data.len() < 4 || offset > data.len() - 4 {
        return None;
    }
    Some(
        data[offset] as u32 + data[offset + 1] as u32 * 0x100 + data[offset + 2] as u32 * 0x1_0000
            + data[offset + 3] as u32 * 0x100_0000,
    )
}

/// Reads the `u16` at an offset known to be in range.
pub fn get_u16(data: &[u8], offset: usize) -> (r: u16)
    requires
        fits(data@.len(), offset as int, 2),
    ensures
        r == le16(data@, offset as int),
{
    data[offset] as u16 + data[offset + 1] as u16 * 0x100
}

/// Reads the `u32` at an offset known to be in range.
pub fn get_u32(data: &[u8], offset: usize) -> (r: u32)
    requires
        fits(data@.len(), offset as int, 4),
    ensures
        r == le32(data@, offset as int),
{
    data[offset] as u32 + data[offset + 1] as u32 * 0x100 + data[offset + 2] as u32 * 0x1_0000
        + data[offset + 3] as u32 * 0x100_0000
}

/// Reads the `u64` at an offset known to be in range.
pub fn get_u64(data: &[u8], offset: usize) -> (r: u64)
    requires
        fits(data@.len(), offset as int, 8),
    ensures
        r == le64(data@, offset as int),
{
    assert(offset + 8 <= data.len());
    get_u32(data, offset) as u64 + get_u32(data, offset + 4) as u64 * 0x1_0000_0000
}

/// The signed value with the bits of `value`.
pub open spec fn signed32(value: u32) -> i32 {
    if value < 0x8000_0000 {
        value as i32
    } else {
        (value - 0x1_0000_0000) as i32
    }
}

/// Reinterprets the bits of `value` as a signed integer.
pub fn to_signed32(value: u32) -> (r: i32)
    ensures
        r == signed32(value),
{
    if value < 0x8000_0000 {
        value as i32
    } else {
        (value as i64 - 0x1_0000_0000) as i32
    }
}

/// Reports whether two byte slices hold the same bytes.
pub fn bytes_equal(left: &[u8], right: &[u8]) -> (r: bool)
    ensures
        r == (left@ == right@),
{
    if left.len() != right.len() {
        return false;
    }
    let mut index: usize = 0;
    while index < left.len()
        invariant
            left@.len() == right@.len(),
            0 <= index <= left@.len(),
            forall|i: int| 0 <= i < index ==> left@[i] == right@[i],
        decreases left.len() - index,
    {
        if left[index] != right[index] {
            return false;
        }
        index += 1;
    }
    assert(left@ =~= right@);
    true
}

/// Appends the little-endian bytes of `value`.
pub fn push_u16(out: &mut Vec<u8>, value: u16)
    ensures
        final(out)@ == old(out)@ + bytes16(value),
{
    out.push((value % 0x100) as u8);
    out.push((value / 0x100) as u8);
    assert(out@ =~= old(out)@ + bytes16(value));
}

/// Appends the little-endian bytes of `value`.
pub fn push_u32(out: &mut Vec<u8>, value: u32)
    ensures
        final(out)@ == old(out)@ + bytes32(value),
{
    out.push((value % 0x100) as u8);
    out.push((value / 0x100 % 0x100) as u8);
    out.push((value / 0x1_0000 % 0x100) as u8);
    out.push((value / 0x100_0000) as u8);
    assert(out@ =~= old(out)@ + bytes32(value));
}

/// Appends the little-endian bytes of `value`.
pub fn push_u64(out: &mut Vec<u8>, value: u64)
    ensures
        final(out)@ == old(out)@ + bytes64(value),
{
    push_u32(out, (value % 0x1_0000_0000) as u32);
    push_u32(out, (value / 0x1_0000_0000) as u32);
    assert(out@ =~= old(out)@ + bytes64(value));
}

/// The index of the first zero byte at or after `from`, or the length of `s` when there is none.
pub open spec fn nul_index(s: Seq<u8>, from: int) -> int
    decreases s.len() - from,
{
    if from >= s.len() || from < 0 {
        s.len() as int
    } else if s[from] == 0 {
        from
    } else {
        nul_index(s, from + 1)
    }
}

/// `nul_index` is the least index of a zero byte in its range.
pub proof fn lemma_nul_index(s: Seq<u8>, from: int)
    requires
        0 <= from <= s.len(),
    ensures
        from <= nul_index(s, from) <= s.len(),
        nul_index(s, from) < s.len() ==> s[nul_index(s, from)] == 0,
        forall|i: int| from <= i < nul_index(s, from) ==> s[i] != 0,
    decreases s.len() - from,
{
    if from < s.len() && s[from] != 0 {
        lemma_nul_index(s, from + 1);
    }
}

/// Finds the first zero byte at or after `from`.
pub fn find_nul(data: &[u8], from: usize) -> (r: Option<usize>)
    ensures
        r == (if from < data@.len() && nul_index(data@, from as int) < data@.len() {
            Some(nul_index(data@, from as int) as usize)
        } else {
            None
        }),
{
    let mut index: usize = from;
    while index < data.len()
        invariant
            from <= index,
            from < data@.len() ==> index <= data@.len(),
            from < data@.len() ==> nul_index(data@, from as int) == nul_index(data@, index as int),
        decreases data.len() - index,
    {
        if data[index] == 0 {
            return Some(index);
        }
        index += 1;
    }
    None
}

} // verus!
