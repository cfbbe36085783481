//! Identity of a target process and its main image.

use vstd::prelude::*;

use crate::bytes::{get_u64, le64};
use crate::memory::{
    MemoryRegion, MemoryRegionQueryError, MemoryRegionType, ProcessMemoryReadError,
};
use crate::pe::types::{PeValidationError, ValidatedPeImage};
use crate::windows::{
    ERROR_BAD_LENGTH, MEM_COMMIT, PAGE_BASE_PROTECTION_MASK, PAGE_GUARD, PAGE_NOACCESS,
};

verus! {

/// Describes the process identity, PEB, and validated main image proven by one strict pass.
#[derive(Debug, Eq, PartialEq)]
pub struct ValidatedProcessPe {
    pub process_id: u32,
    pub peb_address: usize,
    pub being_debugged: bool,
    pub image: ValidatedPeImage,
    pub image_path: String,
}

/// Explains why an owned handle could not be opened or lacks access.
#[derive(Clone, Copy, Debug, Eq, PartialEq, Structural)]
pub enum HandleGuardError {
    InvalidHandle,
    OpenProcessFailed { process_id: u32, requested_access: u32, error: u32 },
    NtOpenThreadFailed { process_id: u32, thread_id: u32, requested_access: u32, status: i32 },
    AccessQueryFailed { status: i32, return_length: u32 },
    InsufficientAccess { granted_access: u32, required_access: u32 },
}

/// Explains why process identity, PEB discovery, or loaded-image validation failed.
#[allow(inconsistent_fields)]
#[derive(Clone, Copy, Debug, Eq, PartialEq, Structural)]
pub enum ProcessPeValidationError {
    InvalidProcessHandle,
    ProcessIdUnavailable { error: u32 },
    ProcessBasicInformationQueryFailed { status: i32, return_length: u32 },
    ProcessBasicInformationTooSmall { return_length: u32 },
    ProcessIdentityMismatch { handle_process_id: u32, basic_information_process_id: usize },
    ModuleSnapshotFailed { error: u32 },
    ModuleSnapshotHandleFailed(HandleGuardError),
    MainModuleEntryUnavailable { error: u32 },
    MainImagePathUnavailable,
    ToolhelpProcessIdentityMismatch { expected_process_id: u32, actual_process_id: u32 },
    PebAddressUnavailable,
    PebAddressMisaligned { peb_address: usize },
    PebRangeOverflow { peb_address: usize, bytes_required: usize },
    PebRegionQueryFailed { peb_address: usize, error: MemoryRegionQueryError },
    InvalidPebRegion {
        peb_address: usize,
        region_base_address: usize,
        region_size: usize,
        state: u32,
        protect: u32,
        region_type: MemoryRegionType,
    },
    PebReadFailed(ProcessMemoryReadError),
    PeValidationFailed(PeValidationError),
    MainImageBaseMismatch { peb_image_base: usize, toolhelp_image_base: usize },
    MainImageSizeMismatch { validated_image_size: usize, toolhelp_image_size: usize },
}

/// Maximum attempts used for transient module-snapshot failures.
pub const TOOLHELP_SNAPSHOT_RETRY_LIMIT: usize = 4;

/// Alignment of a PEB.
pub const PEB_ALIGNMENT: usize = 8;

/// Byte size of the PEB through its main-image base slot.
pub const PEB_BLOCK_SIZE: usize = 24;

/// Byte offset of the debugged flag in a PEB.
pub const PEB_BEING_DEBUGGED_OFFSET: usize = 2;

/// Byte offset of the main-image base in a PEB.
pub const PEB_IMAGE_BASE_OFFSET: usize = 16;

/// What the first bytes of a PEB say.
#[derive(Clone, Copy, Debug, Eq, PartialEq, Structural)]
pub struct PebImageBlock {
    pub being_debugged: bool,
    pub image_base: usize,
}

/// Checks that a process handle names a process. `process_id` and `error` are what the system
/// reports for it.
pub fn check_process_id(process_is_null: bool, process_id: u32, error: u32) -> (r: Result<
    u32,
    ProcessPeValidationError,
>)
    ensures
        r == (if process_is_null {
            Err(ProcessPeValidationError::InvalidProcessHandle)
        } else if process_id == 0 {
            Err(ProcessPeValidationError::ProcessIdUnavailable { error })
        } else {
            Ok(process_id)
        }),
{
    if process_is_null {
        return Err(ProcessPeValidationError::InvalidProcessHandle);
    }
    if process_id == 0 {
        return Err(ProcessPeValidationError::ProcessIdUnavailable { error });
    }
    Ok(process_id)
}

/// Checks that a handle grants every required access right, by what the native query of its basic
/// object information reports.
pub fn check_granted_access(
    status: i32,
    return_length: u32,
    granted_access: u32,
    required_access: u32,
) -> (r: Result<u32, HandleGuardError>)
    ensures
        r == (if status < 0 {
            Err(HandleGuardError::AccessQueryFailed { status, return_length })
        } else if granted_access & required_access != required_access {
            Err(HandleGuardError::InsufficientAccess { granted_access, required_access })
        } else {
            Ok(granted_access)
        }),
{
    if status < 0 {
        return Err(HandleGuardError::AccessQueryFailed { status, return_length });
    }
    if granted_access & required_access != required_access {
        return Err(HandleGuardError::InsufficientAccess { granted_access, required_access });
    }
    Ok(granted_access)
}

/// Checks what the native query of basic process information reports.
pub fn check_basic_information(status: i32, return_length: u32, information_length: u32) -> (r:
    Result<(), ProcessPeValidationError>)
    ensures
        r == (if status < 0 {
            Err(
                ProcessPeValidationError::ProcessBasicInformationQueryFailed {
                    status,
                    return_length,
                },
            )
        } else if return_length < information_length {
            Err(ProcessPeValidationError::ProcessBasicInformationTooSmall { return_length })
        } else {
            Ok(())
        }),
{
    if status < 0 {
        return Err(
            ProcessPeValidationError::ProcessBasicInformationQueryFailed { status, return_length },
        );
    }
    if return_length < information_length {
        return Err(ProcessPeValidationError::ProcessBasicInformationTooSmall { return_length });
    }
    Ok(())
}

/// Why a PEB address reported for a process is refused.
pub open spec fn peb_location_error(
    process_id: u32,
    reported_process_id: usize,
    peb_address: usize,
) -> Option<ProcessPeValidationError> {
    if reported_process_id != process_id {
        Some(
            ProcessPeValidationError::ProcessIdentityMismatch {
                handle_process_id: process_id,
                basic_information_process_id: reported_process_id,
            },
        )
    } else if peb_address == 0 {
        Some(ProcessPeValidationError::PebAddressUnavailable)
    } else if peb_address as int % PEB_ALIGNMENT as int != 0 {
        Some(ProcessPeValidationError::PebAddressMisaligned { peb_address })
    } else if peb_address + PEB_BLOCK_SIZE > usize::MAX {
        Some(
            ProcessPeValidationError::PebRangeOverflow {
                peb_address,
                bytes_required: PEB_BLOCK_SIZE,
            },
        )
    } else {
        None
    }
}

/// Checks the identity and the PEB address that basic process information reports.
pub fn check_peb_location(process_id: u32, reported_process_id: usize, peb_address: usize) -> (r:
    Result<(), ProcessPeValidationError>)
    ensures
        match r {
            Ok(()) => peb_location_error(process_id, reported_process_id, peb_address) is None,
            Err(e) => peb_location_error(process_id, reported_process_id, peb_address) == Some(e),
        },
{
    if reported_process_id != process_id as usize {
        return Err(
            ProcessPeValidationError::ProcessIdentityMismatch {
                handle_process_id: process_id,
                basic_information_process_id: reported_process_id,
            },
        );
    }
    if peb_address == 0 {
        return Err(ProcessPeValidationError::PebAddressUnavailable);
    }
    if peb_address % PEB_ALIGNMENT != 0 {
        return Err(ProcessPeValidationError::PebAddressMisaligned { peb_address });
    }
    if peb_address.checked_add(PEB_BLOCK_SIZE).is_none() {
        return Err(
            ProcessPeValidationError::PebRangeOverflow {
                peb_address,
                bytes_required: PEB_BLOCK_SIZE,
            },
        );
    }
    Ok(())
}

/// Whether a region holds the start of a PEB as committed, private, accessible memory.
pub open spec fn holds_peb(region: MemoryRegion, peb_address: usize) -> bool {
    &&& region.base_address <= peb_address
    &&& peb_address + PEB_BLOCK_SIZE <= region.base_address + region.region_size
    &&& region.state == MEM_COMMIT
    &&& region.region_type == MemoryRegionType::Private
    &&& region.protect & PAGE_GUARD == 0
    &&& region.protect & PAGE_BASE_PROTECTION_MASK != PAGE_NOACCESS
}

/// Why the region of a PEB is refused.
pub open spec fn peb_region_error(
    peb_address: usize,
    outcome: Result<MemoryRegion, MemoryRegionQueryError>,
) -> Option<ProcessPeValidationError> {
    match outcome {
        Err(error) => Some(ProcessPeValidationError::PebRegionQueryFailed { peb_address, error }),
        Ok(region) => if region.base_address + region.region_size > usize::MAX {
            Some(
                ProcessPeValidationError::PebRangeOverflow {
                    peb_address: region.base_address,
                    bytes_required: region.region_size,
                },
            )
        } else if !holds_peb(region, peb_address) {
            Some(
                ProcessPeValidationError::InvalidPebRegion {
                    peb_address,
                    region_base_address: region.base_address,
                    region_size: region.region_size,
                    state: region.state,
                    protect: region.protect,
                    region_type: region.region_type,
                },
            )
        } else {
            None
        },
    }
}

/// Checks the region of a PEB.
pub fn check_peb_region(
    peb_address: usize,
    outcome: Result<MemoryRegion, MemoryRegionQueryError>,
) -> (r: Result<(), ProcessPeValidationError>)
    requires
        peb_address + PEB_BLOCK_SIZE <= usize::MAX,
    ensures
        match r {
            Ok(()) => peb_region_error(peb_address, outcome) is None,
            Err(e) => peb_region_error(peb_address, outcome) == Some(e),
        },
{
    let region = match outcome {
        Ok(value) => value,
        Err(error) => return Err(
            ProcessPeValidationError::PebRegionQueryFailed { peb_address, error },
        ),
    };
    let region_end: usize = match region.base_address.checked_add(region.region_size) {
        Some(value) => value,
        None => return Err(
            ProcessPeValidationError::PebRangeOverflow {
                peb_address: region.base_address,
                bytes_required: region.region_size,
            },
        ),
    };
    if region.base_address > peb_address || peb_address + PEB_BLOCK_SIZE > region_end
        || region.state != MEM_COMMIT || region.region_type != MemoryRegionType::Private
        || region.protect & PAGE_GUARD != 0 || region.protect & PAGE_BASE_PROTECTION_MASK
        == PAGE_NOACCESS {
        return Err(
            ProcessPeValidationError::InvalidPebRegion {
                peb_address,
                region_base_address: region.base_address,
                region_size: region.region_size,
                state: region.state,
                protect: region.protect,
                region_type: region.region_type,
            },
        );
    }
    Ok(())
}

/// The PEB fields stored in its first bytes.
pub open spec fn peb_block_in(bytes: Seq<u8>) -> PebImageBlock {
    PebImageBlock {
        being_debugged: bytes[PEB_BEING_DEBUGGED_OFFSET as int] != 0,
        image_base: le64(bytes, PEB_IMAGE_BASE_OFFSET as int) as usize,
    }
}

/// Takes the first bytes of a PEB. Another number of bytes than asked for is an incomplete read.
pub fn accept_peb(outcome: Result<Vec<u8>, ProcessMemoryReadError>) -> (r: Result<
    PebImageBlock,
    ProcessPeValidationError,
>)
    ensures
        r == (match outcome {
            Err(error) => Err(ProcessPeValidationError::PebReadFailed(error)),
            Ok(bytes) => if bytes@.len() != PEB_BLOCK_SIZE {
                Err(
                    ProcessPeValidationError::PebReadFailed(
                        ProcessMemoryReadError::ReadIncomplete {
                            bytes_requested: PEB_BLOCK_SIZE,
                            bytes_read: bytes@.len() as usize,
                        },
                    ),
                )
            } else {
                Ok(peb_block_in(bytes@))
            },
        }),
{
    match outcome {
        Err(error) => Err(ProcessPeValidationError::PebReadFailed(error)),
        Ok(bytes) => {
            if bytes.len() != PEB_BLOCK_SIZE {
                return Err(
                    ProcessPeValidationError::PebReadFailed(
                        ProcessMemoryReadError::ReadIncomplete {
                            bytes_requested: PEB_BLOCK_SIZE,
                            bytes_read: bytes.len(),
                        },
                    ),
                );
            }
            Ok(
                PebImageBlock {
                    being_debugged: bytes[PEB_BEING_DEBUGGED_OFFSET] != 0,
                    image_base: get_u64(&bytes, PEB_IMAGE_BASE_OFFSET) as usize,
                },
            )
        },
    }
}

/// Decides after a failed module snapshot, `attempts` having been made with it, whether to try
/// again: only a length error is transient, and attempts are bounded.
pub fn retry_module_snapshot(attempts: usize, error: u32) -> (r: Result<
    (),
    ProcessPeValidationError,
>)
    ensures
        r == (if error == ERROR_BAD_LENGTH && attempts < TOOLHELP_SNAPSHOT_RETRY_LIMIT {
            Ok(())
        } else {
            Err(ProcessPeValidationError::ModuleSnapshotFailed { error })
        }),
{
    if error == ERROR_BAD_LENGTH && attempts < TOOLHELP_SNAPSHOT_RETRY_LIMIT {
        return Ok(());
    }
    Err(ProcessPeValidationError::ModuleSnapshotFailed { error })
}

/// The number of units before the first zero unit.
pub open spec fn wide_length(units: Seq<u16>, from: int) -> int
    decreases units.len() - from,
{
    if from >= units.len() || units[from] == 0 {
        from
    } else {
        wide_length(units, from + 1)
    }
}

/// Checks the first module entry of a process and measures its path. `error` is what the system
/// reports when there is none.
pub fn check_module_entry(
    found: bool,
    error: u32,
    process_id: u32,
    entry_process_id: u32,
    path_units: &[u16],
) -> (r: Result<usize, ProcessPeValidationError>)
    ensures
        r == (if !found {
            Err(ProcessPeValidationError::MainModuleEntryUnavailable { error })
        } else if entry_process_id != process_id {
            Err(
                ProcessPeValidationError::ToolhelpProcessIdentityMismatch {
                    expected_process_id: process_id,
                    actual_process_id: entry_process_id,
                },
            )
        } else if wide_length(path_units@, 0) == 0 {
            Err(ProcessPeValidationError::MainImagePathUnavailable)
        } else {
            Ok(wide_length(path_units@, 0) as usize)
        }),
        r is Ok ==> r->Ok_0 <= path_units@.len(),
{
    if !found {
        return Err(ProcessPeValidationError::MainModuleEntryUnavailable { error });
    }
    if entry_process_id != process_id {
        return Err(
            ProcessPeValidationError::ToolhelpProcessIdentityMismatch {
                expected_process_id: process_id,
                actual_process_id: entry_process_id,
            },
        );
    }
    let mut length: usize = 0;
    while length < path_units.len() && path_units[length] != 0
        invariant
            length <= path_units@.len(),
            wide_length(path_units@, 0) == wide_length(path_units@, length as int),
        decreases path_units.len() - length,
    {
        length += 1;
    }
    if length == 0 {
        return Err(ProcessPeValidationError::MainImagePathUnavailable);
    }
    Ok(length)
}

/// Why the image that a PEB names is not the first module of the process.
pub open spec fn main_image_error(
    image: ValidatedPeImage,
    module_base: usize,
    module_size: usize,
) -> Option<ProcessPeValidationError> {
    if module_base != image.base_address {
        Some(
            ProcessPeValidationError::MainImageBaseMismatch {
                peb_image_base: image.base_address,
                toolhelp_image_base: module_base,
            },
        )
    } else if module_size != image.image_size {
        Some(
            ProcessPeValidationError::MainImageSizeMismatch {
                validated_image_size: image.image_size,
                toolhelp_image_size: module_size,
            },
        )
    } else {
        None
    }
}

/// Completes the identity of a process when its validated image is also its first module.
pub fn complete_process_identity(
    process_id: u32,
    peb_address: usize,
    peb: PebImageBlock,
    image: ValidatedPeImage,
    module_base: usize,
    module_size: usize,
    image_path: String,
) -> (r: Result<ValidatedProcessPe, ProcessPeValidationError>)
    ensures
        match r {
            Ok(process) => {
                &&& main_image_error(image, module_base, module_size) is None
                &&& process.process_id == process_id
                &&& process.peb_address == peb_address
                &&& process.being_debugged == peb.being_debugged
                &&& process.image == image
                &&& process.image_path == image_path
            },
            Err(e) => main_image_error(image, module_base, module_size) == Some(e),
        },
{
    if module_base != image.base_address {
        return Err(
            ProcessPeValidationError::MainImageBaseMismatch {
                peb_image_base: image.base_address,
                toolhelp_image_base: module_base,
            },
        );
    }
    if module_size != image.image_size {
        return Err(
            ProcessPeValidationError::MainImageSizeMismatch {
                validated_image_size: image.image_size,
                toolhelp_image_size: module_size,
            },
        );
    }
    Ok(
        ValidatedProcessPe {
            process_id,
            peb_address,
            being_debugged: peb.being_debugged,
            image,
            image_path,
        },
    )
}

} // verus!
