//! Reads of process memory and the scan of a stack, stated over numbers and bytes.

use vstd::prelude::*;

use crate::memory::{
    law_memory_matches_are_complete, match_at, pattern_matches, read_request_error, MemoryRegion,
    MemoryRegionQueryError,
};
use crate::stack_strings::{readable_region, stack_region, stack_scan_error};
use crate::teb::ThreadTebInfo;

verus! {

/// A read is tried exactly with a process, from an address other than zero, of some bytes, inside
/// the address range.
pub proof fn law_read_requests(process_is_null: bool, total_bytes: usize, starting_address: usize)
    ensures
        read_request_error(process_is_null, total_bytes, starting_address) is None
            <==> !process_is_null && starting_address != 0 && total_bytes != 0 && starting_address
            + total_bytes <= usize::MAX,
{
}

/// A pattern is found exactly where all its bytes stand, at its address.
pub proof fn law_every_match_is_found(
    bytes: Seq<u8>,
    starting_address: usize,
    pattern: Seq<u8>,
    offset: int,
)
    requires
        bytes.len() <= usize::MAX,
        0 <= offset,
        0 < pattern.len(),
        starting_address + offset <= usize::MAX,
    ensures
        ({
            let matches = pattern_matches(bytes, starting_address, pattern);
            let stands = offset + pattern.len() <= bytes.len() && forall|k: int|
                0 <= k < pattern.len() ==> #[trigger] pattern[k] == bytes[offset + k];
            stands <==> exists|i: int|
                0 <= i < matches.len() && (#[trigger] matches[i]).offset == offset
        }),
{
    law_memory_matches_are_complete(bytes, starting_address, pattern, offset);
    let stands = offset + pattern.len() <= bytes.len() && forall|k: int|
        0 <= k < pattern.len() ==> #[trigger] pattern[k] == bytes[offset + k];
    if stands {
        assert(bytes.subrange(offset, offset + pattern.len()) =~= pattern);
    }
    if match_at(bytes, starting_address, pattern, offset) {
        let part = bytes.subrange(offset, offset + pattern.len());
        assert forall|k: int| 0 <= k < pattern.len() implies #[trigger] pattern[k] == bytes[offset
            + k] by {
            assert(part[k] == bytes[offset + k]);
        }
    }
}

/// A match says at which address it stands.
pub proof fn law_matches_have_addresses(
    bytes: Seq<u8>,
    starting_address: usize,
    pattern: Seq<u8>,
    i: int,
)
    requires
        bytes.len() <= usize::MAX,
        0 <= i < pattern_matches(bytes, starting_address, pattern).len(),
    ensures
        pattern_matches(bytes, starting_address, pattern)[i].address == starting_address
            + pattern_matches(bytes, starting_address, pattern)[i].offset,
        0 < pattern.len(),
{
    lemma_match_address(
        bytes,
        starting_address,
        pattern,
        bytes.len() - pattern.len() + 1,
        i,
    );
}

/// Matches below a bound say at which address they stand.
proof fn lemma_match_address(
    bytes: Seq<u8>,
    starting_address: usize,
    pattern: Seq<u8>,
    count: int,
    i: int,
)
    requires
        count <= usize::MAX,
        0 <= i < crate::memory::matches_below(bytes, starting_address, pattern, count).len(),
    ensures
        crate::memory::matches_below(bytes, starting_address, pattern, count)[i].address
            == starting_address + crate::memory::matches_below(
            bytes,
            starting_address,
            pattern,
            count,
        )[i].offset,
    decreases count,
{
    let before = crate::memory::matches_below(bytes, starting_address, pattern, count - 1);
    if i < before.len() {
        lemma_match_address(bytes, starting_address, pattern, count - 1, i);
    }
}

/// A region is read for strings exactly when it is committed, not guarded, and its protection
/// grants reading.
pub proof fn law_readable_regions(region: MemoryRegion)
    ensures
        readable_region(region) <==> {
            let protection = region.protect & 0xFF;
            &&& region.state == 0x1000
            &&& region.protect & 0x100 == 0
            &&& protection == 0x02 || protection == 0x04 || protection == 0x08 || protection == 0x20
                || protection == 0x40 || protection == 0x80
        },
{
}

/// A stack is scanned exactly for a process whose identity the thread shares, between two bounds in
/// order.
pub proof fn law_scanned_stacks(
    process_is_null: bool,
    process_id: u32,
    error: u32,
    teb: ThreadTebInfo,
)
    ensures
        stack_scan_error(process_is_null, process_id, error, teb) is None <==> !process_is_null
            && process_id != 0 && teb.client_process_id == process_id && 0 < teb.stack_limit
            < teb.stack_base,
{
}

/// A region takes a stack scan on exactly when it holds the address; the scan goes to the end of the
/// region or of the stack, and reads where the region is readable.
pub proof fn law_stack_regions(
    thread_id: u32,
    stack_base: usize,
    address: usize,
    outcome: Result<MemoryRegion, MemoryRegionQueryError>,
)
    requires
        address < stack_base,
    ensures
        ({
            let r = stack_region(thread_id, stack_base, address, outcome);
            &&& r is Ok <==> outcome is Ok && outcome->Ok_0.base_address <= address
                < outcome->Ok_0.base_address + outcome->Ok_0.region_size <= usize::MAX
            &&& r is Ok ==> {
                let end = outcome->Ok_0.base_address + outcome->Ok_0.region_size;
                &&& address < (r->Ok_0).0 <= stack_base
                &&& (r->Ok_0).0 == end || ((r->Ok_0).0 == stack_base && stack_base <= end)
                &&& (r->Ok_0).0 <= end
                &&& (r->Ok_0).1 == readable_region(outcome->Ok_0)
            }
        }),
{
}

} // verus!
