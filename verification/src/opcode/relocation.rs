//! Base relocations of a raw executable.

use vstd::prelude::*;

use crate::backing::{rva_to_file_range, ValidatedPeFile};
use crate::bytes::{get_u16, get_u32, le16, le32};
use crate::pe::locate::{data_directory, get_data_directory};
use crate::pe::types::PeImage;
use crate::text::{decimal, push_decimal};
use crate::windows::IMAGE_DIRECTORY_ENTRY_BASERELOC;

verus! {

/// Byte size of one PE base-relocation block header.
pub const BASE_RELOCATION_BLOCK_HEADER_SIZE: usize = 8;

/// PE base-relocation type used for x64 absolute addresses.
pub const IMAGE_REL_BASED_DIR64: u16 = 10;

/// Byte size of one relocated x64 address.
pub const RELOCATED_ADDRESS_SIZE: usize = 8;

/// Describes one loader-relocated RVA interval excluded from mapped trap-difference claims.
#[derive(Clone, Copy, Debug, Eq, PartialEq, Structural)]
pub struct ProcessRelocationRange {
    pub rva: usize,
    pub size: usize,
}

/// Explains why base relocations could not be trusted.
#[derive(Clone, Copy, Debug, Eq, PartialEq, Structural)]
pub enum RelocationError {
    DirectoryNotDeclared,
    DirectoryAbsent,
    DirectoryMisaligned,
    DirectoryNotBacked,
    DirectoryRangeOverflow,
    DirectoryOutsideRange,
    IncompleteBlockHeader,
    InvalidBlockLayout,
    TargetOverflow,
    TargetRangeOverflow,
    TargetOutsideImage,
    UnsupportedType { relocation_type: u16 },
}

/// The targets of the relocation entries in `[at, end)` of a block for `page_rva`, appended to
/// `found`, or the first entry's error.
pub open spec fn relocation_entries(
    data: Seq<u8>,
    at: int,
    end: int,
    page_rva: int,
    image_size: int,
    found: Seq<usize>,
) -> Result<Seq<usize>, RelocationError>
    decreases end - at + 1,
{
    if at >= end {
        Ok(found)
    } else {
        let entry = le16(data, at);
        let kind = (entry / 0x1000) as u16;
        let rva = page_rva + entry % 0x1000;
        if kind == 0 {
            relocation_entries(data, at + 2, end, page_rva, image_size, found)
        } else if kind != IMAGE_REL_BASED_DIR64 {
            Err(RelocationError::UnsupportedType { relocation_type: kind })
        } else if rva > usize::MAX {
            Err(RelocationError::TargetOverflow)
        } else if rva + RELOCATED_ADDRESS_SIZE > usize::MAX {
            Err(RelocationError::TargetRangeOverflow)
        } else if rva + RELOCATED_ADDRESS_SIZE > image_size {
            Err(RelocationError::TargetOutsideImage)
        } else {
            relocation_entries(data, at + 2, end, page_rva, image_size, found.push(rva as usize))
        }
    }
}

/// Whether the block header at `at` is refused.
pub open spec fn block_invalid(data: Seq<u8>, at: int) -> bool {
    let page_rva = le32(data, at);
    let block_size = le32(data, at + 4);
    ||| page_rva % 0x1000 != 0
    ||| block_size < BASE_RELOCATION_BLOCK_HEADER_SIZE
    ||| block_size % 4 != 0
    ||| block_size > data.len() - at
}

/// The targets of all relocation blocks from `at` on, appended to `found`, or the first error.
pub open spec fn relocation_blocks(
    data: Seq<u8>,
    at: int,
    image_size: int,
    found: Seq<usize>,
) -> Result<Seq<usize>, RelocationError>
    decreases data.len() - at,
{
    if at >= data.len() {
        Ok(found)
    } else if data.len() - at < BASE_RELOCATION_BLOCK_HEADER_SIZE {
        Err(RelocationError::IncompleteBlockHeader)
    } else if block_invalid(data, at) {
        Err(RelocationError::InvalidBlockLayout)
    } else {
        let end = at + le32(data, at + 4);
        match relocation_entries(
            data,
            at + BASE_RELOCATION_BLOCK_HEADER_SIZE,
            end,
            le32(data, at) as int,
            image_size,
            found,
        ) {
            Ok(more) => relocation_blocks(data, end, image_size, more),
            Err(e) => Err(e),
        }
    }
}

/// `ranges` are the relocated intervals of `targets`: ascending, each once, and no others.
pub open spec fn ranges_of(ranges: Seq<ProcessRelocationRange>, targets: Seq<usize>) -> bool {
    &&& forall|i: int|
        0 <= i < ranges.len() ==> (#[trigger] ranges[i]).size == RELOCATED_ADDRESS_SIZE
            && targets.contains(ranges[i].rva)
    &&& forall|i: int, j: int|
        0 <= i < j < ranges.len() ==> (#[trigger] ranges[i]).rva < (#[trigger] ranges[j]).rva
    &&& forall|k: int|
        0 <= k < targets.len() ==> exists|i: int|
            0 <= i < ranges.len() && (#[trigger] ranges[i]).rva == #[trigger] targets[k]
}

/// Inserts the interval of one target into ascending intervals, once.
fn insert_range(ranges: &mut Vec<ProcessRelocationRange>, rva: usize, Ghost(targets): Ghost<
    Seq<usize>,
>)
    requires
        ranges_of(old(ranges)@, targets),
    ensures
        ranges_of(final(ranges)@, targets.push(rva)),
{
    let mut position: usize = ranges.len();
    while position > 0 && ranges[position - 1].rva > rva
        invariant
            position <= ranges@.len(),
            forall|i: int| position <= i < ranges@.len() ==> (#[trigger] ranges@[i]).rva > rva,
        decreases position,
    {
        position -= 1;
    }
    let ghost before = ranges@;
    let ghost more = targets.push(rva);
    assert(more[targets.len() as int] == rva);
    assert(forall|k: int| 0 <= k < targets.len() ==> more[k] == targets[k]);
    if position > 0 && ranges[position - 1].rva == rva {
        proof {
            assert forall|i: int| 0 <= i < before.len() implies (
            #[trigger] before[i]).size == RELOCATED_ADDRESS_SIZE && more.contains(
                before[i].rva,
            ) by {
                let k = targets.index_of(before[i].rva);
                assert(more[k] == before[i].rva);
            }
            assert forall|k: int| 0 <= k < more.len() implies exists|i: int|
                0 <= i < before.len() && (#[trigger] before[i]).rva == #[trigger] more[k] by {
                if k < targets.len() {
                    assert(more[k] == targets[k]);
                    let i = choose|i: int|
                        0 <= i < before.len() && (#[trigger] before[i]).rva == targets[k];
                    assert(before[i].rva == more[k]);
                } else {
                    assert(before[position - 1].rva == more[k]);
                }
            }
        }
        return;
    }
    let range = ProcessRelocationRange { rva, size: RELOCATED_ADDRESS_SIZE };
    ranges.insert(position, range);
    proof {
        let after = ranges@;
        let p = position as int;
        assert(after =~= before.insert(p, range));
        assert forall|i: int| 0 <= i < after.len() implies (#[trigger] after[i]).size
            == RELOCATED_ADDRESS_SIZE && more.contains(after[i].rva) by {
            if i == p {
                assert(more[targets.len() as int] == after[i].rva);
            } else {
                let b = if i < p {
                    before[i]
                } else {
                    before[i - 1]
                };
                assert(after[i] == b);
                let k = targets.index_of(b.rva);
                assert(more[k] == after[i].rva);
            }
        }
        assert forall|i: int, j: int| 0 <= i < j < after.len() implies (#[trigger] after[i]).rva < (
        #[trigger] after[j]).rva by {
            let bi = if i < p {
                i
            } else {
                i - 1
            };
            let bj = if j < p {
                j
            } else {
                j - 1
            };
            if i != p {
                assert(after[i] == before[bi]);
            }
            if j != p {
                assert(after[j] == before[bj]);
            }
            if i != p && j != p {
                assert(before[bi].rva < before[bj].rva);
            } else if j == p {
                assert(before[p - 1].rva < rva);
                if i < p - 1 {
                    assert(before[i].rva < before[p - 1].rva);
                }
            }
        }
        assert forall|k: int| 0 <= k < more.len() implies exists|i: int|
            0 <= i < after.len() && (#[trigger] after[i]).rva == #[trigger] more[k] by {
            if k < targets.len() {
                let i = choose|i: int|
                    0 <= i < before.len() && (#[trigger] before[i]).rva == targets[k];
                if i < p {
                    assert(after[i].rva == more[k]);
                } else {
                    assert(after[i + 1].rva == more[k]);
                }
            } else {
                assert(after[p].rva == more[k]);
            }
        }
    }
}

/// Collects the relocation entries of one block.
fn collect_block_entries(
    data: &[u8],
    entries_start: usize,
    entries_end: usize,
    page_rva: u32,
    image_size: usize,
    ranges: &mut Vec<ProcessRelocationRange>,
    Ghost(found): Ghost<Seq<usize>>,
) -> (r: Result<(), RelocationError>)
    requires
        entries_start <= entries_end <= data@.len(),
        (entries_end - entries_start) % 2 == 0,
        ranges_of(old(ranges)@, found),
    ensures
        match relocation_entries(
            data@,
            entries_start as int,
            entries_end as int,
            page_rva as int,
            image_size as int,
            found,
        ) {
            Ok(more) => r == Ok::<(), RelocationError>(()) && ranges_of(final(ranges)@, more),
            Err(e) => r == Err::<(), RelocationError>(e),
        },
{
    let mut entry_offset: usize = entries_start;
    let ghost mut seen = found;
    let ghost expected = relocation_entries(
        data@,
        entries_start as int,
        entries_end as int,
        page_rva as int,
        image_size as int,
        found,
    );
    assert(entries_end <= data.len());
    while entry_offset < entries_end
        invariant
            entry_offset <= entries_end <= data@.len(),
            entries_end <= usize::MAX,
            (entries_end - entry_offset) % 2 == 0,
            ranges_of(ranges@, seen),
            expected == relocation_entries(
                data@,
                entry_offset as int,
                entries_end as int,
                page_rva as int,
                image_size as int,
                seen,
            ),
            expected == relocation_entries(
                data@,
                entries_start as int,
                entries_end as int,
                page_rva as int,
                image_size as int,
                found,
            ),
        decreases entries_end - entry_offset,
    {
        let entry: u16 = get_u16(data, entry_offset);
        let relocation_type: u16 = entry / 0x1000;
        let page_offset: usize = (entry % 0x1000) as usize;
        if relocation_type == IMAGE_REL_BASED_DIR64 {
            let rva: usize = match (page_rva as usize).checked_add(page_offset) {
                Some(value) => value,
                None => return Err(RelocationError::TargetOverflow),
            };
            let end_rva: usize = match rva.checked_add(RELOCATED_ADDRESS_SIZE) {
                Some(value) => value,
                None => return Err(RelocationError::TargetRangeOverflow),
            };
            if end_rva > image_size {
                return Err(RelocationError::TargetOutsideImage);
            }
            insert_range(ranges, rva, Ghost(seen));
            proof {
                seen = seen.push(rva);
            }
        } else if relocation_type != 0 {
            return Err(RelocationError::UnsupportedType { relocation_type });
        }
        entry_offset += 2;
    }
    Ok(())
}

/// Parses one bounded PE base-relocation directory into x64 DIR64 exclusion ranges.
pub fn parse_base_relocation_ranges(data: &[u8], image_size: usize) -> (r: Result<
    Vec<ProcessRelocationRange>,
    RelocationError,
>)
    ensures
        match relocation_blocks(data@, 0, image_size as int, Seq::empty()) {
            Ok(targets) => r is Ok && ranges_of(r->Ok_0@, targets),
            Err(e) => r == Err::<Vec<ProcessRelocationRange>, RelocationError>(e),
        },
{
    let mut ranges: Vec<ProcessRelocationRange> = Vec::new();
    let mut offset: usize = 0;
    let ghost mut found: Seq<usize> = Seq::empty();
    let ghost expected = relocation_blocks(data@, 0, image_size as int, Seq::empty());
    while offset < data.len()
        invariant
            offset <= data@.len(),
            ranges_of(ranges@, found),
            expected == relocation_blocks(data@, 0, image_size as int, Seq::empty()),
            expected == relocation_blocks(data@, offset as int, image_size as int, found),
        decreases data.len() - offset,
    {
        let remaining: usize = data.len() - offset;
        if remaining < BASE_RELOCATION_BLOCK_HEADER_SIZE {
            return Err(RelocationError::IncompleteBlockHeader);
        }
        let page_rva: u32 = get_u32(data, offset);
        let block_size: usize = get_u32(data, offset + 4) as usize;
        if page_rva % 0x1000 != 0 || block_size < BASE_RELOCATION_BLOCK_HEADER_SIZE || block_size
            % 4 != 0 || block_size > remaining {
            return Err(RelocationError::InvalidBlockLayout);
        }
        let entries_end: usize = offset + block_size;
        match collect_block_entries(
            data,
            offset + BASE_RELOCATION_BLOCK_HEADER_SIZE,
            entries_end,
            page_rva,
            image_size,
            &mut ranges,
            Ghost(found),
        ) {
            Ok(()) => {},
            Err(e) => return Err(e),
        }
        proof {
            found = relocation_entries(
                data@,
                offset + BASE_RELOCATION_BLOCK_HEADER_SIZE,
                entries_end as int,
                page_rva as int,
                image_size as int,
                found,
            )->Ok_0;
        }
        offset = entries_end;
    }
    Ok(ranges)
}

/// What the base-relocation directory of a raw executable gives: its file range, or why there is
/// none to trust.
pub open spec fn relocation_directory(file: ValidatedPeFile, pe: PeImage) -> Result<
    (usize, usize),
    RelocationError,
> {
    match data_directory(pe.nt_headers@, IMAGE_DIRECTORY_ENTRY_BASERELOC as int) {
        None => Err(RelocationError::DirectoryNotDeclared),
        Some(directory) => if directory.virtual_address == 0 || directory.size == 0 {
            Err(RelocationError::DirectoryAbsent)
        } else if directory.virtual_address % 4 != 0 {
            Err(RelocationError::DirectoryMisaligned)
        } else {
            match file.file_range(directory.virtual_address as int) {
                None => Err(RelocationError::DirectoryNotBacked),
                Some((offset, raw_end)) => if offset + directory.size > usize::MAX {
                    Err(RelocationError::DirectoryRangeOverflow)
                } else if offset + directory.size > raw_end {
                    Err(RelocationError::DirectoryOutsideRange)
                } else {
                    Ok((offset, (offset + directory.size) as usize))
                },
            }
        },
    }
}

/// Parses and validates every x64 DIR64 base-relocation target in a raw PE file.
pub fn collect_base_relocation_ranges(file: &ValidatedPeFile, pe: &PeImage) -> (r: Result<
    Vec<ProcessRelocationRange>,
    RelocationError,
>)
    requires
        file.wf(),
        pe.wf(),
    ensures
        match relocation_directory(*file, *pe) {
            Err(e) => r == Err::<Vec<ProcessRelocationRange>, RelocationError>(e),
            Ok((start, end)) => match relocation_blocks(
                file.bytes@.subrange(start as int, end as int),
                0,
                file.size_of_image as int,
                Seq::empty(),
            ) {
                Ok(targets) => r is Ok && ranges_of(r->Ok_0@, targets),
                Err(e) => r == Err::<Vec<ProcessRelocationRange>, RelocationError>(e),
            },
        },
{
    let directory = match get_data_directory(pe, IMAGE_DIRECTORY_ENTRY_BASERELOC) {
        Some(value) => value,
        None => return Err(RelocationError::DirectoryNotDeclared),
    };
    let directory_rva: usize = directory.virtual_address as usize;
    let directory_size: usize = directory.size as usize;
    if directory_rva == 0 || directory_size == 0 {
        return Err(RelocationError::DirectoryAbsent);
    }
    if directory_rva % 4 != 0 {
        return Err(RelocationError::DirectoryMisaligned);
    }
    let (file_offset, raw_end) = match rva_to_file_range(file, directory_rva) {
        Some(value) => value,
        None => return Err(RelocationError::DirectoryNotBacked),
    };
    let directory_end: usize = match file_offset.checked_add(directory_size) {
        Some(value) => value,
        None => return Err(RelocationError::DirectoryRangeOverflow),
    };
    if directory_end > raw_end || directory_end > file.bytes.len() {
        return Err(RelocationError::DirectoryOutsideRange);
    }
    parse_base_relocation_ranges(
        vstd::slice::slice_subrange(file.bytes.as_slice(), file_offset, directory_end),
        file.size_of_image,
    )
}

/// Every target of a parsed directory leaves room for a whole address inside the image.
proof fn lemma_entry_targets_in_image(
    data: Seq<u8>,
    at: int,
    end: int,
    page_rva: int,
    image_size: int,
    found: Seq<usize>,
)
    requires
        0 <= page_rva,
        relocation_entries(data, at, end, page_rva, image_size, found) is Ok,
        forall|k: int|
            0 <= k < found.len() ==> #[trigger] found[k] + RELOCATED_ADDRESS_SIZE <= image_size,
    ensures
        forall|k: int|
            0 <= k < relocation_entries(
                data,
                at,
                end,
                page_rva,
                image_size,
                found,
            )->Ok_0.len() ==> #[trigger] relocation_entries(
                data,
                at,
                end,
                page_rva,
                image_size,
                found,
            )->Ok_0[k] + RELOCATED_ADDRESS_SIZE <= image_size,
    decreases end - at + 1,
{
    if at < end {
        let entry = le16(data, at);
        let kind = (entry / 0x1000) as u16;
        if kind == 0 {
            lemma_entry_targets_in_image(data, at + 2, end, page_rva, image_size, found);
        } else {
            let rva = (page_rva + entry % 0x1000) as usize;
            lemma_entry_targets_in_image(
                data,
                at + 2,
                end,
                page_rva,
                image_size,
                found.push(rva),
            );
        }
    }
}

/// Every target of parsed blocks leaves room for a whole address inside the image.
proof fn lemma_block_targets_in_image(data: Seq<u8>, at: int, image_size: int, found: Seq<usize>)
    requires
        0 <= at,
        relocation_blocks(data, at, image_size, found) is Ok,
        forall|k: int|
            0 <= k < found.len() ==> #[trigger] found[k] + RELOCATED_ADDRESS_SIZE <= image_size,
    ensures
        forall|k: int|
            0 <= k < relocation_blocks(data, at, image_size, found)->Ok_0.len()
                ==> #[trigger] relocation_blocks(data, at, image_size, found)->Ok_0[k]
                + RELOCATED_ADDRESS_SIZE <= image_size,
    decreases data.len() - at,
{
    if at < data.len() {
        let end = at + le32(data, at + 4);
        let more = relocation_entries(
            data,
            at + BASE_RELOCATION_BLOCK_HEADER_SIZE,
            end,
            le32(data, at) as int,
            image_size,
            found,
        );
        lemma_entry_targets_in_image(
            data,
            at + BASE_RELOCATION_BLOCK_HEADER_SIZE,
            end,
            le32(data, at) as int,
            image_size,
            found,
        );
        lemma_block_targets_in_image(data, end, image_size, more->Ok_0);
    }
}

/// Relocated intervals of a parsed directory are ascending and unique, and each lies inside the
/// image.
pub proof fn law_relocations_are_ordered_and_inside(
    data: Seq<u8>,
    image_size: int,
    ranges: Seq<ProcessRelocationRange>,
)
    requires
        relocation_blocks(data, 0, image_size, Seq::empty()) is Ok,
        ranges_of(ranges, relocation_blocks(data, 0, image_size, Seq::empty())->Ok_0),
    ensures
        forall|i: int|
            0 <= i < ranges.len() ==> (#[trigger] ranges[i]).rva + ranges[i].size <= image_size,
        forall|i: int, j: int|
            0 <= i < j < ranges.len() ==> (#[trigger] ranges[i]).rva < (#[trigger] ranges[j]).rva,
{
    lemma_block_targets_in_image(data, 0, image_size, Seq::empty());
    let targets = relocation_blocks(data, 0, image_size, Seq::empty())->Ok_0;
    assert forall|i: int| 0 <= i < ranges.len() implies (#[trigger] ranges[i]).rva + ranges[i].size
        <= image_size by {
        let k = targets.index_of(ranges[i].rva);
        assert(targets[k] + RELOCATED_ADDRESS_SIZE <= image_size);
    }
}

/// The diagnostic text of a relocation error.
pub open spec fn relocation_message(error: RelocationError) -> Seq<char> {
    match error {
        RelocationError::DirectoryNotDeclared => "base-relocation directory is not declared"@,
        RelocationError::DirectoryAbsent => "base-relocation directory is absent for a rebased image"@,
        RelocationError::DirectoryMisaligned => "base-relocation directory is not DWORD aligned"@,
        RelocationError::DirectoryNotBacked => "base-relocation directory is not raw-file backed"@,
        RelocationError::DirectoryRangeOverflow => "base-relocation directory range overflowed"@,
        RelocationError::DirectoryOutsideRange => "base-relocation directory exceeds its raw-file range"@,
        RelocationError::IncompleteBlockHeader => "base-relocation directory ends with an incomplete block header"@,
        RelocationError::InvalidBlockLayout => "base-relocation block layout is invalid"@,
        RelocationError::TargetOverflow => "base-relocation target overflowed"@,
        RelocationError::TargetRangeOverflow => "base-relocation target range overflowed"@,
        RelocationError::TargetOutsideImage => "base-relocation target exceeds SizeOfImage"@,
        RelocationError::UnsupportedType { relocation_type } =>
            "unsupported x64 base-relocation type "@ + decimal(relocation_type as nat),
    }
}

impl RelocationError {
    /// The diagnostic text of this error.
    pub fn message(&self) -> (r: String)
        ensures
            r@ == relocation_message(*self),
    {
        let fixed: &str = match *self {
            RelocationError::DirectoryNotDeclared => "base-relocation directory is not declared",
            RelocationError::DirectoryAbsent => "base-relocation directory is absent for a rebased image",
            RelocationError::DirectoryMisaligned => "base-relocation directory is not DWORD aligned",
            RelocationError::DirectoryNotBacked => "base-relocation directory is not raw-file backed",
            RelocationError::DirectoryRangeOverflow => "base-relocation directory range overflowed",
            RelocationError::DirectoryOutsideRange => "base-relocation directory exceeds its raw-file range",
            RelocationError::IncompleteBlockHeader => "base-relocation directory ends with an incomplete block header",
            RelocationError::InvalidBlockLayout => "base-relocation block layout is invalid",
            RelocationError::TargetOverflow => "base-relocation target overflowed",
            RelocationError::TargetRangeOverflow => "base-relocation target range overflowed",
            RelocationError::TargetOutsideImage => "base-relocation target exceeds SizeOfImage",
            RelocationError::UnsupportedType { relocation_type } => {
                let mut message = "unsupported x64 base-relocation type ".to_owned();
                push_decimal(&mut message, relocation_type as u64);
                return message;
            },
        };
        fixed.to_owned()
    }
}

} // verus!
