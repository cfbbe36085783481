//! Facts of a process and its threads, identity hashes and progress, stated over bytes and numbers.

use vstd::prelude::*;

use crate::bytes::le64;
use crate::console::overall_percentage;
use crate::memory::{MemoryRegion, MemoryRegionType};
use crate::pe::identity::identity_hash;
use crate::pe::types::ValidatedPeImage;
use crate::process::{holds_peb, main_image_error, peb_block_in, peb_location_error, wide_length};
use crate::teb::{
    teb_header_in, teb_info, with_thread, TebHeader64, ThreadBasicInformation,
    ThreadTebCollectionError, ThreadTebFailure, ThreadTebInfo,
};

verus! {

/// The fields of a TEB stand behind each other, eight bytes each.
pub proof fn law_teb_words(bytes: Seq<u8>)
    requires
        usize::MAX >= 0xFFFF_FFFF_FFFF_FFFF,
    ensures
        ({
            let header = teb_header_in(bytes);
            &&& header.exception_list == le64(bytes, 0)
            &&& header.stack_base == le64(bytes, 8)
            &&& header.stack_limit == le64(bytes, 16)
            &&& header.subsystem_tib == le64(bytes, 24)
            &&& header.fiber_data_or_version == le64(bytes, 32)
            &&& header.arbitrary_user_pointer == le64(bytes, 40)
            &&& header.self_address == le64(bytes, 48)
            &&& header.environment_pointer == le64(bytes, 56)
            &&& header.client_process_id == le64(bytes, 64)
            &&& header.client_thread_id == le64(bytes, 72)
            &&& header.active_rpc_handle == le64(bytes, 80)
            &&& header.thread_local_storage_pointer == le64(bytes, 88)
            &&& header.process_environment_block == le64(bytes, 96)
        }),
{
}

/// The record of a thread tells the size of its stack where the bounds are in order, and whether
/// the TEB names itself, the process and the thread.
pub proof fn law_teb_records(
    process_id: u32,
    thread_id: u32,
    information: ThreadBasicInformation,
    header: TebHeader64,
)
    ensures
        ({
            let info = teb_info(process_id, thread_id, information, header);
            &&& info.thread_id == thread_id
            &&& info.teb_address == information.teb_base_address
            &&& info.stack_base == header.stack_base
            &&& info.stack_limit == header.stack_limit
            &&& match info.stack_size_bytes {
                Some(size) => header.stack_limit + size == header.stack_base,
                None => header.stack_base < header.stack_limit,
            }
            &&& info.self_pointer_matches <==> header.self_address == information.teb_base_address
            &&& info.client_process_id_matches <==> header.client_process_id == process_id
            &&& info.client_thread_id_matches <==> header.client_thread_id == thread_id
            &&& info.client_process_id == header.client_process_id
            &&& info.client_thread_id == header.client_thread_id
            &&& info.self_address == header.self_address
            &&& info.process_environment_block == header.process_environment_block
            &&& info.exit_status == information.exit_status
        }),
{
}

/// A thread adds one record, or one failure under its identifier, and leaves the others.
pub proof fn law_one_more_thread(
    tebs: Seq<ThreadTebInfo>,
    failures: Seq<ThreadTebFailure>,
    thread_id: u32,
    outcome: Result<ThreadTebInfo, ThreadTebCollectionError>,
)
    ensures
        ({
            let (after, failed) = with_thread(tebs, failures, thread_id, outcome);
            &&& outcome is Ok ==> after == tebs.push(outcome->Ok_0) && failed == failures
            &&& outcome is Err ==> after == tebs && failed.len() == failures.len() + 1
                && failed.last().thread_id == thread_id && failed.last().error == outcome->Err_0
                && failed.drop_last() == failures
        }),
{
    if outcome is Err {
        let (_after, failed) = with_thread(tebs, failures, thread_id, outcome);
        assert(failed.drop_last() =~= failures);
    }
}

/// A PEB address is taken exactly for the process itself, other than zero, aligned, and with room
/// for the block behind it.
pub proof fn law_peb_locations(process_id: u32, reported: usize, address: usize)
    ensures
        peb_location_error(process_id, reported, address) is None <==> reported == process_id
            && address != 0 && address % 8 == 0 && address + 24 <= usize::MAX,
{
}

/// A region holds a PEB exactly when the block lies in it and it is committed, private, not guarded,
/// and accessible.
pub proof fn law_peb_regions(region: MemoryRegion, address: usize)
    ensures
        holds_peb(region, address) <==> region.base_address <= address && address + 24
            <= region.base_address + region.region_size && region.state == 0x1000
            && region.region_type == MemoryRegionType::Private && region.protect & 0x100 == 0
            && region.protect & 0xFF != 1,
{
}

/// The PEB says at its third byte whether the process is debugged, and at its sixteenth where its
/// image lies.
pub proof fn law_peb_words(bytes: Seq<u8>)
    requires
        usize::MAX >= 0xFFFF_FFFF_FFFF_FFFF,
    ensures
        peb_block_in(bytes).being_debugged <==> bytes[2] != 0,
        peb_block_in(bytes).image_base == le64(bytes, 16),
{
}

/// A path is as long as it has no zero unit.
proof fn lemma_wide_length(units: Seq<u16>, from: int)
    requires
        0 <= from <= units.len(),
    ensures
        from <= wide_length(units, from) <= units.len(),
        forall|i: int| from <= i < wide_length(units, from) ==> #[trigger] units[i] != 0,
        wide_length(units, from) < units.len() ==> units[wide_length(units, from)] == 0,
    decreases units.len() - from,
{
    if from < units.len() && units[from] != 0 {
        lemma_wide_length(units, from + 1);
    }
}

/// A path reaches to its first zero unit, or to the end.
pub proof fn law_path_length(units: Seq<u16>, length: int)
    requires
        0 <= length <= units.len(),
        forall|i: int| 0 <= i < length ==> #[trigger] units[i] != 0,
        length < units.len() ==> units[length] == 0,
    ensures
        wide_length(units, 0) == length,
{
    lemma_wide_length(units, 0);
    let found = wide_length(units, 0);
    if found < length {
        assert(units[found] != 0);
    }
    if length < found {
        assert(units[length] != 0);
    }
}

/// The image of the PEB is the first module exactly when base and size agree.
pub proof fn law_main_image(image: ValidatedPeImage, module_base: usize, module_size: usize)
    ensures
        main_image_error(image, module_base, module_size) is None <==> module_base
            == image.base_address && module_size == image.image_size,
{
}

/// The hash of no bytes, and of one byte more: mixed in, then multiplied by the prime.
pub proof fn law_hash_steps(bytes: Seq<u8>, byte: u8)
    ensures
        identity_hash(Seq::empty()) == 14695981039346656037,
        identity_hash(bytes.push(byte)) as int == ((identity_hash(bytes) ^ (byte as u64)) as int
            * 1099511628211) % 0x1_0000_0000_0000_0000,
{
    let more = bytes.push(byte);
    assert(more.drop_last() =~= bytes);
    assert(more.last() == byte);
}

/// The overall percentage of a phase is the share of the span that is done, rounded down.
pub proof fn law_phase_share(start: int, end: int, completed: int, total: int)
    requires
        0 <= start <= end <= 100,
        0 <= completed <= total,
        0 < total,
    ensures
        ({
            let share = overall_percentage(start, end, completed, total) - start;
            share * total <= completed * (end - start) < (share + 1) * total
        }),
{
    let span = end - start;
    let share = completed * span / total;
    assert(overall_percentage(start, end, completed, total) == start + share);
    assert(share * total <= completed * span < (share + 1) * total) by (nonlinear_arith)
        requires
            share == completed * span / total,
            0 < total,
    ;
}

/// A phase without work ends at its end, work beyond the total counts as the total, and no
/// percentage is beyond a hundred.
pub proof fn law_phase_limits(start: int, end: int, completed: int, total: int)
    requires
        0 <= start,
        0 <= end,
        0 <= completed,
        0 <= total,
    ensures
        end <= 100 ==> overall_percentage(start, end, completed, 0) == end,
        end > 100 ==> overall_percentage(start, end, completed, 0) == 100,
        completed > total ==> overall_percentage(start, end, completed, total)
            == overall_percentage(start, end, total, total),
        end > 100 ==> overall_percentage(start, end, completed, total) == overall_percentage(
            start,
            100,
            completed,
            total,
        ),
        start > 100 && total > 0 ==> overall_percentage(start, end, completed, total) == 100,
        end <= start <= 100 && total > 0 ==> overall_percentage(start, end, completed, total)
            == start,
{
    let done = if completed > total {
        total
    } else {
        completed
    };
    assert(done * 0 == 0);
    assert(total > 0 ==> 0int / total == 0) by (nonlinear_arith);
}

} // verus!
