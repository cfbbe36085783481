//! Decisions around reads and region queries of another process's memory.

use vstd::prelude::*;

use crate::opcode::catalog::bytes_at;
use crate::windows::{MEM_IMAGE, MEM_MAPPED, MEM_PRIVATE};

verus! {

/// Describes a single byte-pattern match in process memory.
#[derive(Clone, Copy, Debug, Eq, PartialEq, Structural)]
pub struct ProcessMemoryMatch {
    pub offset: usize,
    pub address: usize,
}

/// Contains bytes read from a process and any byte-pattern matches found in them.
#[derive(Clone, Debug, Eq, PartialEq)]
pub struct ProcessMemoryRead {
    pub starting_address: usize,
    pub bytes_requested: usize,
    pub bytes_read: usize,
    pub status: i32,
    pub bytes: Vec<u8>,
    pub matches: Vec<ProcessMemoryMatch>,
}

/// Explains why a process-memory read could not be completed safely.
#[derive(Clone, Copy, Debug, Eq, PartialEq, Structural)]
pub enum ProcessMemoryReadError {
    InvalidProcessHandle,
    NullBaseAddress,
    ZeroBytesRequested,
    AddressRangeOverflow { starting_address: usize, bytes_requested: usize },
    BufferAllocationFailed { bytes_requested: usize },
    BytesReadExceededRequest { bytes_requested: usize, bytes_read: usize },
    ReadFailed { status: i32, bytes_read: usize },
    ReadIncomplete { bytes_requested: usize, bytes_read: usize },
}

/// Coarse classification of the storage that backs a virtual-memory region.
#[derive(Clone, Copy, Debug, Eq, PartialEq, Structural)]
pub enum MemoryRegionType {
    Image,
    Mapped,
    Private,
    Unknown,
}

/// Describes the virtual-memory region that contains a queried address.
#[derive(Clone, Copy, Debug, Eq, PartialEq, Structural)]
pub struct MemoryRegion {
    pub base_address: usize,
    pub allocation_base: usize,
    pub region_size: usize,
    pub state: u32,
    pub protect: u32,
    pub region_type: MemoryRegionType,
}

/// Explains why a memory-region query could not be completed.
#[derive(Clone, Copy, Debug, Eq, PartialEq, Structural)]
pub enum MemoryRegionQueryError {
    InvalidProcessHandle,
    NullBaseAddress,
    QueryFailed { status: i32 },
}

/// The region class that a raw `Type` value stands for.
pub open spec fn region_type_of(region_type: u32) -> MemoryRegionType {
    if region_type == MEM_IMAGE {
        MemoryRegionType::Image
    } else if region_type == MEM_MAPPED {
        MemoryRegionType::Mapped
    } else if region_type == MEM_PRIVATE {
        MemoryRegionType::Private
    } else {
        MemoryRegionType::Unknown
    }
}

/// Maps a raw `MEMORY_BASIC_INFORMATION` type field to a `MemoryRegionType`.
pub fn classify_region_type(region_type: u32) -> (r: MemoryRegionType)
    ensures
        r == region_type_of(region_type),
{
    if region_type == MEM_IMAGE {
        MemoryRegionType::Image
    } else if region_type == MEM_MAPPED {
        MemoryRegionType::Mapped
    } else if region_type == MEM_PRIVATE {
        MemoryRegionType::Private
    } else {
        MemoryRegionType::Unknown
    }
}

/// Why a read is refused before it is tried.
pub open spec fn read_request_error(
    process_is_null: bool,
    total_bytes: usize,
    starting_address: usize,
) -> Option<ProcessMemoryReadError> {
    if process_is_null {
        Some(ProcessMemoryReadError::InvalidProcessHandle)
    } else if starting_address == 0 {
        Some(ProcessMemoryReadError::NullBaseAddress)
    } else if total_bytes == 0 {
        Some(ProcessMemoryReadError::ZeroBytesRequested)
    } else if starting_address + total_bytes > usize::MAX {
        Some(
            ProcessMemoryReadError::AddressRangeOverflow {
                starting_address,
                bytes_requested: total_bytes,
            },
        )
    } else {
        None
    }
}

/// Checks a read before it is tried.
pub fn check_read_request(process_is_null: bool, total_bytes: usize, starting_address: usize) -> (r:
    Result<(), ProcessMemoryReadError>)
    ensures
        match r {
            Ok(()) => read_request_error(process_is_null, total_bytes, starting_address) is None,
            Err(e) => read_request_error(process_is_null, total_bytes, starting_address) == Some(
                e,
            ),
        },
{
    if process_is_null {
        return Err(ProcessMemoryReadError::InvalidProcessHandle);
    }
    if starting_address == 0 {
        return Err(ProcessMemoryReadError::NullBaseAddress);
    }
    if total_bytes == 0 {
        return Err(ProcessMemoryReadError::ZeroBytesRequested);
    }
    if starting_address.checked_add(total_bytes).is_none() {
        return Err(
            ProcessMemoryReadError::AddressRangeOverflow {
                starting_address,
                bytes_requested: total_bytes,
            },
        );
    }
    Ok(())
}

/// Fills an empty buffer with `total_bytes` zeros.
pub fn zero_read_buffer(buffer: Vec<u8>, total_bytes: usize) -> (r: Vec<u8>)
    requires
        buffer@.len() == 0,
    ensures
        r@ == Seq::new(total_bytes as nat, |i: int| 0u8),
{
    let mut bytes = buffer;
    bytes.resize(total_bytes, 0);
    assert(bytes@ =~= Seq::new(total_bytes as nat, |i: int| 0u8));
    bytes
}

/// Allocates a zeroed buffer for a memory read. It fails only when its reservation is refused; an
/// empty buffer needs none.
pub fn create_read_buffer(total_bytes: usize) -> (r: Result<Vec<u8>, ProcessMemoryReadError>)
    ensures
        total_bytes == 0 ==> r is Ok,
        match r {
            Ok(buffer) => buffer@ == Seq::new(total_bytes as nat, |i: int| 0u8),
            Err(e) => e == (ProcessMemoryReadError::BufferAllocationFailed {
                bytes_requested: total_bytes,
            }),
        },
{
    let mut buffer: Vec<u8> = Vec::new();
    if total_bytes > 0 && buffer.try_reserve(total_bytes).is_err() {
        return Err(
            ProcessMemoryReadError::BufferAllocationFailed { bytes_requested: total_bytes },
        );
    }
    Ok(zero_read_buffer(buffer, total_bytes))
}

/// Turns what a native read of a whole buffer reports into its result. A partial read that
/// succeeded is kept.
pub fn complete_read(
    starting_address: usize,
    status: i32,
    bytes_read: usize,
    buffer: Vec<u8>,
) -> (r: Result<ProcessMemoryRead, ProcessMemoryReadError>)
    ensures
        match r {
            Ok(read) => {
                &&& status >= 0
                &&& bytes_read <= buffer@.len()
                &&& read.starting_address == starting_address
                &&& read.bytes_requested == buffer@.len()
                &&& read.bytes_read == bytes_read
                &&& read.status == status
                &&& read.bytes@ == buffer@.subrange(0, bytes_read as int)
                &&& read.matches@.len() == 0
            },
            Err(e) => if status < 0 {
                e == (ProcessMemoryReadError::ReadFailed { status, bytes_read })
            } else {
                &&& bytes_read > buffer@.len()
                &&& e == (ProcessMemoryReadError::BytesReadExceededRequest {
                    bytes_requested: buffer@.len() as usize,
                    bytes_read,
                })
            },
        },
{
    let total_bytes: usize = buffer.len();
    if status < 0 {
        return Err(ProcessMemoryReadError::ReadFailed { status, bytes_read });
    }
    if bytes_read > total_bytes {
        return Err(
            ProcessMemoryReadError::BytesReadExceededRequest {
                bytes_requested: total_bytes,
                bytes_read,
            },
        );
    }
    let mut bytes = buffer;
    bytes.truncate(bytes_read);
    Ok(
        ProcessMemoryRead {
            starting_address,
            bytes_requested: total_bytes,
            bytes_read,
            status,
            bytes,
            matches: Vec::new(),
        },
    )
}

/// Takes the bytes of a read only when all that were asked for came.
pub fn require_exact_read(
    read: Result<ProcessMemoryRead, ProcessMemoryReadError>,
    total_bytes: usize,
) -> (r: Result<Vec<u8>, ProcessMemoryReadError>)
    ensures
        match read {
            Err(e) => r == Err::<Vec<u8>, ProcessMemoryReadError>(e),
            Ok(read) => if read.bytes_read != total_bytes {
                r == Err::<Vec<u8>, _>(
                    ProcessMemoryReadError::ReadIncomplete {
                        bytes_requested: total_bytes,
                        bytes_read: read.bytes_read,
                    },
                )
            } else {
                r == Ok::<Vec<u8>, ProcessMemoryReadError>(read.bytes)
            },
        },
{
    match read {
        Err(e) => Err(e),
        Ok(read) => if read.bytes_read != total_bytes {
            Err(
                ProcessMemoryReadError::ReadIncomplete {
                    bytes_requested: total_bytes,
                    bytes_read: read.bytes_read,
                },
            )
        } else {
            Ok(read.bytes)
        },
    }
}

/// Whether `pattern` stands at `offset` of `bytes`, at an address inside the address range.
pub open spec fn match_at(
    bytes: Seq<u8>,
    starting_address: usize,
    pattern: Seq<u8>,
    offset: int,
) -> bool {
    &&& offset + pattern.len() <= bytes.len()
    &&& bytes.subrange(offset, offset + pattern.len()) == pattern
    &&& starting_address + offset <= usize::MAX
}

/// The matches at offsets below `count`, ascending.
pub open spec fn matches_below(
    bytes: Seq<u8>,
    starting_address: usize,
    pattern: Seq<u8>,
    count: int,
) -> Seq<ProcessMemoryMatch>
    decreases count,
{
    if count <= 0 {
        Seq::empty()
    } else if match_at(bytes, starting_address, pattern, count - 1) {
        matches_below(bytes, starting_address, pattern, count - 1).push(
            ProcessMemoryMatch {
                offset: (count - 1) as usize,
                address: (starting_address + count - 1) as usize,
            },
        )
    } else {
        matches_below(bytes, starting_address, pattern, count - 1)
    }
}

/// Every match of a pattern, ascending; an empty pattern matches nowhere.
pub open spec fn pattern_matches(
    bytes: Seq<u8>,
    starting_address: usize,
    pattern: Seq<u8>,
) -> Seq<ProcessMemoryMatch> {
    if pattern.len() == 0 || pattern.len() > bytes.len() {
        Seq::empty()
    } else {
        matches_below(bytes, starting_address, pattern, bytes.len() - pattern.len() + 1)
    }
}

/// Searches a byte buffer for an exact byte pattern.
pub fn find_pattern_matches(bytes: &[u8], starting_address: usize, search_pattern: &[u8]) -> (r: Vec<
    ProcessMemoryMatch,
>)
    ensures
        r@ == pattern_matches(bytes@, starting_address, search_pattern@),
{
    let mut matches: Vec<ProcessMemoryMatch> = Vec::new();
    if search_pattern.len() == 0 || search_pattern.len() > bytes.len() {
        return matches;
    }
    let last: usize = bytes.len() - search_pattern.len();
    let mut offset: usize = 0;
    while offset <= last
        invariant
            search_pattern@.len() > 0,
            last == bytes@.len() - search_pattern@.len(),
            bytes@.len() <= usize::MAX,
            offset <= last + 1,
            matches@ == matches_below(
                bytes@,
                starting_address,
                search_pattern@,
                offset as int,
            ),
        decreases last + 1 - offset,
    {
        if bytes_at(bytes, offset, search_pattern) {
            match starting_address.checked_add(offset) {
                Some(address) => {
                    matches.push(ProcessMemoryMatch { offset, address });
                },
                None => {},
            }
        }
        offset += 1;
    }
    matches
}

/// Adds the matches of a pattern to a read.
pub fn search_read(read: ProcessMemoryRead, search_pattern: &[u8]) -> (r: ProcessMemoryRead)
    ensures
        r.matches@ == pattern_matches(read.bytes@, read.starting_address, search_pattern@),
        r.starting_address == read.starting_address,
        r.bytes_requested == read.bytes_requested,
        r.bytes_read == read.bytes_read,
        r.status == read.status,
        r.bytes == read.bytes,
{
    let matches = find_pattern_matches(&read.bytes, read.starting_address, search_pattern);
    ProcessMemoryRead {
        starting_address: read.starting_address,
        bytes_requested: read.bytes_requested,
        bytes_read: read.bytes_read,
        status: read.status,
        bytes: read.bytes,
        matches,
    }
}

/// Matches below a bound are ascending, and hold every match below it and nothing else.
proof fn lemma_matches_below(
    bytes: Seq<u8>,
    starting_address: usize,
    pattern: Seq<u8>,
    count: int,
)
    requires
        0 <= count <= usize::MAX,
    ensures
        ({
            let matches = matches_below(bytes, starting_address, pattern, count);
            &&& forall|i: int|
                0 <= i < matches.len() ==> {
                    let found = #[trigger] matches[i];
                    &&& found.offset < count
                    &&& found.address == starting_address + found.offset
                    &&& match_at(bytes, starting_address, pattern, found.offset as int)
                }
            &&& forall|i: int, j: int|
                0 <= i < j < matches.len() ==> (#[trigger] matches[i]).offset < (
                #[trigger] matches[j]).offset
            &&& forall|offset: int|
                0 <= offset < count && #[trigger] match_at(
                    bytes,
                    starting_address,
                    pattern,
                    offset,
                ) ==> exists|i: int|
                    0 <= i < matches.len() && (#[trigger] matches[i]).offset == offset
        }),
    decreases count,
{
    if count > 0 {
        lemma_matches_below(bytes, starting_address, pattern, count - 1);
        let before = matches_below(bytes, starting_address, pattern, count - 1);
        let matches = matches_below(bytes, starting_address, pattern, count);
        assert forall|offset: int|
            0 <= offset < count && #[trigger] match_at(
                bytes,
                starting_address,
                pattern,
                offset,
            ) implies exists|i: int|
            0 <= i < matches.len() && (#[trigger] matches[i]).offset == offset by {
            if offset < count - 1 {
                let i = choose|i: int|
                    0 <= i < before.len() && (#[trigger] before[i]).offset == offset;
                assert(matches[i].offset == offset);
            } else {
                assert(matches[matches.len() - 1].offset == offset);
            }
        }
    }
}

/// A search of read bytes finds every occurrence of a pattern inside the address range,
/// overlapping ones included, and nothing else, in ascending order.
pub proof fn law_memory_matches_are_complete(
    bytes: Seq<u8>,
    starting_address: usize,
    pattern: Seq<u8>,
    offset: int,
)
    requires
        0 <= offset,
        0 < pattern.len(),
        bytes.len() <= usize::MAX,
    ensures
        ({
            let matches = pattern_matches(bytes, starting_address, pattern);
            &&& match_at(bytes, starting_address, pattern, offset) <==> exists|i: int|
                0 <= i < matches.len() && (#[trigger] matches[i]).offset == offset
            &&& forall|i: int, j: int|
                0 <= i < j < matches.len() ==> (#[trigger] matches[i]).offset < (
                #[trigger] matches[j]).offset
        }),
{
    if pattern.len() <= bytes.len() {
        let count = bytes.len() - pattern.len() + 1;
        lemma_matches_below(bytes, starting_address, pattern, count);
        let matches = pattern_matches(bytes, starting_address, pattern);
        if match_at(bytes, starting_address, pattern, offset) {
            assert(offset < count);
            let i = choose|i: int|
                0 <= i < matches.len() && (#[trigger] matches[i]).offset == offset;
            assert(matches[i].offset == offset);
        }
        if exists|i: int| 0 <= i < matches.len() && (#[trigger] matches[i]).offset == offset {
            let i = choose|i: int|
                0 <= i < matches.len() && (#[trigger] matches[i]).offset == offset;
            assert(match_at(bytes, starting_address, pattern, matches[i].offset as int));
        }
    }
}

/// Why a region query is refused before it is tried.
pub open spec fn region_request_error(process_is_null: bool, address: usize) -> Option<
    MemoryRegionQueryError,
> {
    if process_is_null {
        Some(MemoryRegionQueryError::InvalidProcessHandle)
    } else if address == 0 {
        Some(MemoryRegionQueryError::NullBaseAddress)
    } else {
        None
    }
}

/// Checks a region query before it is tried.
pub fn check_region_request(process_is_null: bool, address: usize) -> (r: Result<
    (),
    MemoryRegionQueryError,
>)
    ensures
        match r {
            Ok(()) => region_request_error(process_is_null, address) is None,
            Err(e) => region_request_error(process_is_null, address) == Some(e),
        },
{
    if process_is_null {
        return Err(MemoryRegionQueryError::InvalidProcessHandle);
    }
    if address == 0 {
        return Err(MemoryRegionQueryError::NullBaseAddress);
    }
    Ok(())
}

/// Turns what a native region query reports into its result.
pub fn complete_region_query(
    status: i32,
    base_address: usize,
    allocation_base: usize,
    region_size: usize,
    state: u32,
    protect: u32,
    raw_type: u32,
) -> (r: Result<MemoryRegion, MemoryRegionQueryError>)
    ensures
        r == (if status < 0 {
            Err(MemoryRegionQueryError::QueryFailed { status })
        } else {
            Ok(
                MemoryRegion {
                    base_address,
                    allocation_base,
                    region_size,
                    state,
                    protect,
                    region_type: region_type_of(raw_type),
                },
            )
        }),
{
    if status < 0 {
        return Err(MemoryRegionQueryError::QueryFailed { status });
    }
    Ok(
        MemoryRegion {
            base_address,
            allocation_base,
            region_size,
            state,
            protect,
            region_type: classify_region_type(raw_type),
        },
    )
}

} // verus!
