//! A raw executable that backs a mapped image.

use vstd::prelude::*;

verus! {

/// A run of image bytes stored in the raw file.
#[derive(Clone, Copy, Debug, Eq, PartialEq, Structural)]
pub struct RawFileRange {
    pub rva: usize,
    pub size: usize,
    pub file_offset: usize,
}

/// Owns the bytes and checked metadata of a raw executable.
#[derive(Clone, Debug, Eq, PartialEq)]
pub struct ValidatedPeFile {
    pub bytes: Vec<u8>,
    pub image_base: u64,
    pub size_of_image: usize,
    pub ranges: Vec<RawFileRange>,
}

impl ValidatedPeFile {
    /// Every stored run lies inside the file.
    pub open spec fn wf(&self) -> bool {
        forall|i: int|
            0 <= i < self.ranges@.len() ==> (#[trigger] self.ranges@[i]).file_offset
                + self.ranges@[i].size <= self.bytes@.len()
    }
}

/// The file offset of `rva` and the end of the stored run that holds it, from run `index` on.
pub open spec fn file_range_from(ranges: Seq<RawFileRange>, index: int, rva: int) -> Option<
    (usize, usize),
>
    decreases ranges.len() - index,
{
    if index >= ranges.len() {
        None
    } else if ranges[index].rva <= rva < ranges[index].rva + ranges[index].size {
        Some(
            (
                (ranges[index].file_offset + (rva - ranges[index].rva)) as usize,
                (ranges[index].file_offset + ranges[index].size) as usize,
            ),
        )
    } else {
        file_range_from(ranges, index + 1, rva)
    }
}

impl ValidatedPeFile {
    /// The file offset of `rva` and the end of the first stored run that holds it.
    pub open spec fn file_range(&self, rva: int) -> Option<(usize, usize)> {
        file_range_from(self.ranges@, 0, rva)
    }

    /// The stored byte of `rva`.
    pub open spec fn byte_at(&self, rva: int) -> Option<u8> {
        match self.file_range(rva) {
            Some((offset, _)) => Some(self.bytes@[offset as int]),
            None => None,
        }
    }
}

/// Finds the file offset of an RVA and the end of the stored run that holds it.
pub fn rva_to_file_range(file: &ValidatedPeFile, rva: usize) -> (r: Option<(usize, usize)>)
    requires
        file.wf(),
    ensures
        r == file.file_range(rva as int),
        r is Some ==> (r->0).0 < (r->0).1 && (r->0).1 <= file.bytes@.len(),
{
    let mut index: usize = 0;
    while index < file.ranges.len()
        invariant
            file.wf(),
            index <= file.ranges@.len(),
            file.file_range(rva as int) == file_range_from(file.ranges@, index as int, rva as int),
        decreases file.ranges.len() - index,
    {
        let range = file.ranges[index];
        assert(file.ranges@[index as int].file_offset + file.ranges@[index as int].size
            <= file.bytes.len());
        if rva >= range.rva && rva - range.rva < range.size {
            return Some((range.file_offset + (rva - range.rva), range.file_offset + range.size));
        }
        index += 1;
    }
    None
}

/// Reads one raw-file byte at an image RVA.
pub fn backing_byte_at_rva(file: &ValidatedPeFile, rva: usize) -> (r: Option<u8>)
    requires
        file.wf(),
    ensures
        r == file.byte_at(rva as int),
{
    match rva_to_file_range(file, rva) {
        Some((file_offset, _)) => Some(file.bytes[file_offset]),
        None => None,
    }
}

} // verus!
